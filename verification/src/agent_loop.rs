//! The tool-calling loop: drive a multi-turn conversation with a provider
//! under an iteration budget, execute the tools the model requests under
//! the security policy, and feed the results back in order.

use vstd::prelude::*;

use crate::chat::{
    duplicate_calls, hist_model, CallModel, ChatMessage, ChatResponse, MsgModel, ToolCall,
    ToolDefinition, ToolResult,
};
use crate::history::{
    assistant_carries_id, clusters_intact, history_shape, is_system, is_tool, is_user, tool_id_of,
};
use crate::jsonio::json_parse_ok;
use crate::security::{action_allowed, SecurityPolicy};
use crate::strings::{concat_str, starts_with_seq, str_eq, str_starts_with};
use vstd::string::StrSliceExecFns;
use vstd::string::StringExecFns;

verus! {

/// A callable tool: a name, a description, a JSON-Schema argument contract,
/// and the execution itself. Implementations live with their capabilities
/// (shell, files, memory, web); the kernel sees only this surface.
pub trait Tool {
    fn name(&self) -> (n: String);

    fn description(&self) -> (d: String);

    fn parameters_schema(&self) -> (s: String);

    /// Run the tool on parsed JSON arguments.
    fn execute(&self, args: &serde_json::Value) -> (r: Result<ToolResult, String>);
}

/// A tool under the name the registry knows it by. The registry looks
/// tools up by this stored name.
pub struct ToolEntry<T> {
    pub name: String,
    pub tool: T,
}

/// Register a tool under its own name.
pub fn register_tool<T: Tool>(tool: T) -> (e: ToolEntry<T>) {
    let name = tool.name();
    ToolEntry { name, tool }
}

/// An LLM provider's tool-capable chat operation.
pub trait Provider {
    fn chat_with_tools(
        &mut self,
        messages: &Vec<ChatMessage>,
        tools: &Vec<ToolDefinition>,
        model: &str,
        temperature_milli: u32,
    ) -> (r: Result<ChatResponse, String>);
}

/// A provider together with a count of the requests made through it. The
/// kernel talks to the provider only through this handle, so the count
/// bounds how often the provider was consulted.
pub struct ProviderHandle<P> {
    pub inner: P,
    pub calls_made: Ghost<nat>,
}

impl<P: Provider> ProviderHandle<P> {
    /// How many chat requests went through this handle.
    pub open spec fn calls(&self) -> nat {
        self.calls_made@
    }

    /// Wrap a provider; no requests made yet.
    pub fn new(inner: P) -> (h: ProviderHandle<P>)
        ensures
            h.calls() == 0,
    {
        ProviderHandle { inner, calls_made: Ghost(0nat) }
    }

    /// One chat request through the wrapped provider.
    fn chat_with_tools(
        &mut self,
        messages: &Vec<ChatMessage>,
        tools: &Vec<ToolDefinition>,
        model: &str,
        temperature_milli: u32,
    ) -> (r: Result<ChatResponse, String>)
        ensures
            final(self).calls() == old(self).calls() + 1,
    {
        let r = self.inner.chat_with_tools(messages, tools, model, temperature_milli);
        proof {
            self.calls_made@ = self.calls_made@ + 1;
        }
        r
    }
}

/// What an observer may record.
pub enum ObserverEvent {
    AgentStart { provider: String, model: String },
    AgentEnd { duration_ms: u64 },
    ToolCall { tool: String, duration_ms: u64, success: bool },
}

/// A sink for observability events.
pub trait Observer {
    fn record_event(&mut self, event: &ObserverEvent);
}

/// Ghost model of an observer event. Durations are wall-clock readings and
/// are not modelled.
pub enum ObsModel {
    AgentStart { provider: Seq<char>, model: Seq<char> },
    AgentEnd,
    ToolCall { tool: Seq<char>, success: bool },
}

/// The model of one event.
pub open spec fn event_model(e: ObserverEvent) -> ObsModel {
    match e {
        ObserverEvent::AgentStart { provider, model } => ObsModel::AgentStart {
            provider: provider@,
            model: model@,
        },
        ObserverEvent::AgentEnd { .. } => ObsModel::AgentEnd,
        ObserverEvent::ToolCall { tool, success, .. } => ObsModel::ToolCall {
            tool: tool@,
            success,
        },
    }
}

/// An observer together with the log of the events recorded through it.
/// The kernel records only through this handle, so its contracts can say
/// which events a run emits.
pub struct ObserverHandle<O> {
    pub inner: O,
    pub log: Ghost<Seq<ObsModel>>,
}

impl<O: Observer> ObserverHandle<O> {
    /// The events recorded through this handle, oldest first.
    pub open spec fn events(&self) -> Seq<ObsModel> {
        self.log@
    }

    /// Wrap an observer; nothing recorded yet.
    pub fn new(inner: O) -> (h: ObserverHandle<O>)
        ensures
            h.events() == Seq::<ObsModel>::empty(),
    {
        ObserverHandle { inner, log: Ghost(Seq::empty()) }
    }

    /// Record one event through the wrapped observer.
    pub fn record_event(&mut self, event: &ObserverEvent)
        ensures
            final(self).events() == old(self).events().push(event_model(*event)),
    {
        self.inner.record_event(event);
        proof {
            self.log@ = self.log@.push(event_model(*event));
        }
    }
}

/// The models of a tool-call list.
pub open spec fn calls_models(s: Seq<ToolCall>) -> Seq<CallModel> {
    s.map_values(|c: ToolCall| c@)
}

/// Whether some registered tool bears this name.
pub open spec fn has_tool<T>(tools: Seq<ToolEntry<T>>, name: Seq<char>) -> bool {
    exists|k: int| 0 <= k < tools.len() && (#[trigger] tools[k]).name@ == name
}

/// The error text for a call to a name no tool bears.
pub open spec fn unknown_tool_message(name: Seq<char>) -> Seq<char> {
    "Error: 未知工具「"@ + name + "」"@
}

/// The error text for a call rejected by the rate limit.
pub open spec fn rate_limit_message() -> Seq<char> {
    "错误: 超出速率限制，请稍后再进行工具调用。"@
}

/// The prefix of the error text for arguments that are not valid JSON.
pub open spec fn parse_error_prefix() -> Seq<char> {
    "错误: 参数解析失败: "@
}

/// The content a message model carries.
pub open spec fn content_of(m: MsgModel) -> Seq<char> {
    match m {
        MsgModel::System { content } => content,
        MsgModel::User { content } => content,
        MsgModel::Assistant { content, .. } => match content {
            Some(c) => c,
            None => Seq::empty(),
        },
        MsgModel::Tool { content, .. } => content,
    }
}

/// The message content a tool's outcome maps to: the output on success,
/// the error (or the output in its place) marked `Error: ` on failure,
/// and a returned failure's text marked the same way.
pub open spec fn result_content_spec(outcome: Result<ToolResult, String>) -> Seq<char> {
    match outcome {
        Ok(r) => if r.success {
            r.output@
        } else {
            "Error: "@ + (match r.error {
                Some(e) => e@,
                None => r.output@,
            })
        },
        Err(e) => "Error: "@ + e@,
    }
}

/// Map one tool outcome to the content of its result message.
pub fn tool_result_content(outcome: Result<ToolResult, String>) -> (c: String)
    ensures
        c@ == result_content_spec(outcome),
{
    match outcome {
        Ok(result) => {
            if result.success {
                result.output
            } else {
                let detail = match result.error {
                    Some(e) => e,
                    None => result.output,
                };
                concat_str("Error: ", detail.as_str())
            }
        },
        Err(e) => concat_str("Error: ", e.as_str()),
    }
}

/// How the recorded action times evolve over a list of calls handled at
/// time `now`: a call consumes budget exactly when its tool exists and the
/// window still has room.
pub open spec fn times_after(
    times: Seq<u64>,
    calls: Seq<CallModel>,
    known: spec_fn(Seq<char>) -> bool,
    now: u64,
    max: u64,
) -> Seq<u64>
    decreases calls.len(),
{
    if calls.len() == 0 {
        times
    } else {
        let step = if known(calls[0].name) && action_allowed(times, now, max) {
            times.push(now)
        } else {
            times
        };
        times_after(step, calls.drop_first(), known, now, max)
    }
}

/// Fold-step fact: handling one more call applies one more step.
proof fn lemma_times_after_push(
    times: Seq<u64>,
    calls: Seq<CallModel>,
    c: CallModel,
    known: spec_fn(Seq<char>) -> bool,
    now: u64,
    max: u64,
)
    ensures
        times_after(times, calls.push(c), known, now, max) == ({
            let t = times_after(times, calls, known, now, max);
            if known(c.name) && action_allowed(t, now, max) {
                t.push(now)
            } else {
                t
            }
        }),
    decreases calls.len(),
{
    if calls.len() == 0 {
        assert(calls.push(c).drop_first() =~= Seq::<CallModel>::empty());
        assert(calls.push(c)[0] == c);
        let step = if known(c.name) && action_allowed(times, now, max) {
            times.push(now)
        } else {
            times
        };
        assert(times_after(times, calls, known, now, max) == times);
        assert(times_after(step, calls.push(c).drop_first(), known, now, max) == step);
        assert(times_after(times, calls.push(c), known, now, max) == step);
    } else {
        assert(calls.push(c)[0] == calls[0]);
        assert(calls.push(c).drop_first() =~= calls.drop_first().push(c));
        let step = if known(calls[0].name) && action_allowed(times, now, max) {
            times.push(now)
        } else {
            times
        };
        lemma_times_after_push(step, calls.drop_first(), c, known, now, max);
        assert(times_after(times, calls, known, now, max) == times_after(
            step,
            calls.drop_first(),
            known,
            now,
            max,
        ));
        assert(times_after(times, calls.push(c), known, now, max) == times_after(
            step,
            calls.drop_first().push(c),
            known,
            now,
            max,
        ));
    }
}

/// Whether call `j` actually runs its tool: the tool exists, the window
/// still has room when the call's turn comes, and its arguments parse.
pub open spec fn executed_at(
    times0: Seq<u64>,
    calls: Seq<CallModel>,
    j: int,
    known: spec_fn(Seq<char>) -> bool,
    now: u64,
    max: u64,
) -> bool {
    &&& 0 <= j < calls.len()
    &&& known(calls[j].name)
    &&& action_allowed(times_after(times0, calls.take(j), known, now, max), now, max)
    &&& json_parse_ok(calls[j].arguments)
}

/// What the harness promises of result `j`: a tool message answering the
/// call's id, with the exact error text for an unknown tool or a rejected
/// call, the parse-error prefix for bad arguments, and — when the tool
/// runs — a content that is the mapping of some tool outcome.
pub open spec fn harness_result_ok(
    times0: Seq<u64>,
    calls: Seq<CallModel>,
    rs: Seq<MsgModel>,
    j: int,
    known: spec_fn(Seq<char>) -> bool,
    now: u64,
    max: u64,
) -> bool {
    let m = rs[j];
    let call = calls[j];
    let times_j = times_after(times0, calls.take(j), known, now, max);
    &&& is_tool(m)
    &&& tool_id_of(m) == call.id
    &&& (!known(call.name) ==> content_of(m) == unknown_tool_message(call.name))
    &&& (known(call.name) && !action_allowed(times_j, now, max) ==> content_of(m)
        == rate_limit_message())
    &&& (known(call.name) && action_allowed(times_j, now, max) && !json_parse_ok(call.arguments)
        ==> starts_with_seq(content_of(m), parse_error_prefix()))
    &&& (executed_at(times0, calls, j, known, now, max) ==> exists|
        outcome: Result<ToolResult, String>,
    | content_of(m) == result_content_spec(outcome))
}

/// What the harness promises of a whole result list.
pub open spec fn harness_results_ok(
    times0: Seq<u64>,
    calls: Seq<CallModel>,
    rs: Seq<MsgModel>,
    known: spec_fn(Seq<char>) -> bool,
    now: u64,
    max: u64,
) -> bool {
    &&& rs.len() == calls.len()
    &&& forall|j: int|
        0 <= j < calls.len() ==> #[trigger] harness_result_ok(times0, calls, rs, j, known, now, max)
}

/// The observer events the first `m` calls emit: one tool-call event per
/// executed call, in order, whose success flag says whether the produced
/// content does not start with `Error:`.
pub open spec fn harness_events_upto(
    times0: Seq<u64>,
    calls: Seq<CallModel>,
    rs: Seq<MsgModel>,
    m: int,
    known: spec_fn(Seq<char>) -> bool,
    now: u64,
    max: u64,
) -> Seq<ObsModel>
    decreases m,
{
    if m <= 0 {
        Seq::empty()
    } else {
        let prefix = harness_events_upto(times0, calls, rs, m - 1, known, now, max);
        if executed_at(times0, calls, m - 1, known, now, max) && m - 1 < rs.len() {
            prefix.push(
                ObsModel::ToolCall {
                    tool: calls[m - 1].name,
                    success: !starts_with_seq(content_of(rs[m - 1]), "Error:"@),
                },
            )
        } else {
            prefix
        }
    }
}

/// The emitted events depend only on the results already produced.
proof fn lemma_harness_events_agree(
    times0: Seq<u64>,
    calls: Seq<CallModel>,
    rs1: Seq<MsgModel>,
    rs2: Seq<MsgModel>,
    m: int,
    known: spec_fn(Seq<char>) -> bool,
    now: u64,
    max: u64,
)
    requires
        0 <= m <= rs1.len(),
        m <= rs2.len(),
        rs1.take(m) == rs2.take(m),
    ensures
        harness_events_upto(times0, calls, rs1, m, known, now, max) == harness_events_upto(
            times0,
            calls,
            rs2,
            m,
            known,
            now,
            max,
        ),
    decreases m,
{
    if m > 0 {
        assert(rs1.take(m - 1) =~= rs1.take(m).take(m - 1));
        assert(rs2.take(m - 1) =~= rs2.take(m).take(m - 1));
        lemma_harness_events_agree(times0, calls, rs1, rs2, m - 1, known, now, max);
        assert(rs1[m - 1] == rs1.take(m)[m - 1]);
        assert(rs2[m - 1] == rs2.take(m)[m - 1]);
    }
}

/// Find a registered tool by name.
fn find_tool<'a, T>(tools: &'a Vec<ToolEntry<T>>, name: &str) -> (r: Option<&'a T>)
    ensures
        r is Some <==> has_tool(tools@, name@),
{
    let n = tools.len();
    let mut i: usize = 0;
    while i < n
        invariant
            n == tools@.len(),
            i <= n,
            forall|k: int| 0 <= k < i ==> (#[trigger] tools@[k]).name@ != name@,
        decreases n - i,
    {
        if str_eq(tools[i].name.as_str(), name) {
            return Some(&tools[i].tool);
        }
        i = i + 1;
    }
    None
}

/// Execute a list of tool calls against the tool registry.
///
/// Returns one `Tool` message per call, in the order of the calls. An
/// unknown tool name costs no budget; a rate-limited call is answered with
/// the limit text and costs none either; bad JSON arguments consume budget
/// and are answered with a parse error; an executed tool's outcome maps to
/// the content by `result_content_spec`, and the observer hears one
/// tool-call event per executed call.
pub fn execute_tool_calls<T: Tool, O: Observer>(
    tool_calls: &Vec<ToolCall>,
    tools: &Vec<ToolEntry<T>>,
    security: &mut SecurityPolicy,
    observer: &mut ObserverHandle<O>,
    now: u64,
) -> (results: Vec<ChatMessage>)
    ensures
        results@.len() == tool_calls@.len(),
        final(security).times() == times_after(
            old(security).times(),
            calls_models(tool_calls@),
            |n: Seq<char>| has_tool(tools@, n),
            now,
            old(security).max_actions_per_hour,
        ),
        final(security).max_actions_per_hour == old(security).max_actions_per_hour,
        final(security).workspace_only == old(security).workspace_only,
        harness_results_ok(
            old(security).times(),
            calls_models(tool_calls@),
            hist_model(results@),
            |n: Seq<char>| has_tool(tools@, n),
            now,
            old(security).max_actions_per_hour,
        ),
        final(observer).events() == old(observer).events() + harness_events_upto(
            old(security).times(),
            calls_models(tool_calls@),
            hist_model(results@),
            tool_calls@.len() as int,
            |n: Seq<char>| has_tool(tools@, n),
            now,
            old(security).max_actions_per_hour,
        ),
{
    let ghost times0 = security.times();
    let ghost known = |n: Seq<char>| has_tool(tools@, n);
    let ghost max = security.max_actions_per_hour;
    let ghost ev0 = observer.events();
    let ghost cm = calls_models(tool_calls@);
    let n = tool_calls.len();
    let mut results: Vec<ChatMessage> = Vec::new();
    let mut i: usize = 0;
    while i < n
        invariant
            n == tool_calls@.len(),
            i <= n,
            results@.len() == i,
            security.max_actions_per_hour == max,
            security.workspace_only == old(security).workspace_only,
            times0 == old(security).times(),
            ev0 == old(observer).events(),
            known == (|n: Seq<char>| has_tool(tools@, n)),
            cm == calls_models(tool_calls@),
            security.times() == times_after(times0, cm.take(i as int), known, now, max),
            observer.events() == ev0 + harness_events_upto(
                times0,
                cm,
                hist_model(results@),
                i as int,
                known,
                now,
                max,
            ),
            forall|j: int|
                0 <= j < i ==> #[trigger] harness_result_ok(
                    times0,
                    cm,
                    hist_model(results@),
                    j,
                    known,
                    now,
                    max,
                ),
        decreases n - i,
    {
        let tc = &tool_calls[i];
        proof {
            assert(cm.take(i as int + 1) =~= cm.take(i as int).push(tc@));
            lemma_times_after_push(times0, cm.take(i as int), tc@, known, now, max);
        }
        let start_ms = crate::clock::now_unix_millis();
        let maybe_tool = find_tool(tools, tc.function.name.as_str());
        let ghost executed = executed_at(times0, cm, i as int, known, now, max);
        let ghost owit: Result<ToolResult, String> = vstd::pervasive::arbitrary();
        let content: String = match maybe_tool {
            None => {
                proof {
                    assert(!executed);
                }
                let head = concat_str("Error: 未知工具「", tc.function.name.as_str());
                let msg = concat_str(head.as_str(), "」");
                proof {
                    assert(msg@ =~= unknown_tool_message(tc@.name));
                }
                msg
            },
            Some(tool) => {
                if !security.record_action_at(now) {
                    proof {
                        assert(!executed);
                    }
                    "错误: 超出速率限制，请稍后再进行工具调用。".to_owned()
                } else {
                    match crate::jsonio::parse_json(tc.function.arguments.as_str()) {
                        Err(e) => {
                            proof {
                                assert(!executed);
                            }
                            let detail = crate::jsonio::json_error_message(&e);
                            let msg = concat_str("错误: 参数解析失败: ", detail.as_str());
                            proof {
                                assert(msg@.subrange(0, parse_error_prefix().len() as int)
                                    =~= parse_error_prefix());
                            }
                            msg
                        },
                        Ok(args) => {
                            proof {
                                assert(executed);
                            }
                            let outcome = tool.execute(&args);
                            proof {
                                owit = outcome;
                            }
                            let text = tool_result_content(outcome);
                            let end_ms = crate::clock::now_unix_millis();
                            let duration_ms = if end_ms >= start_ms {
                                end_ms - start_ms
                            } else {
                                0
                            };
                            let success = !str_starts_with(text.as_str(), "Error:");
                            observer.record_event(
                                &ObserverEvent::ToolCall {
                                    tool: tc.function.name.clone(),
                                    duration_ms,
                                    success,
                                },
                            );
                            text
                        },
                    }
                }
            },
        };
        let ghost before = results@;
        let ghost content_view = content@;
        results.push(
            ChatMessage::Tool { tool_call_id: tc.id.clone(), content },
        );
        i = i + 1;
        proof {
            assert(forall|j: int| 0 <= j < i - 1 ==> results@[j] == before[j]);
            let rs_new = hist_model(results@);
            let rs_old = hist_model(before);
            assert(rs_new.take(i - 1) =~= rs_old);
            assert(rs_old.take(i - 1) =~= rs_old);
            assert(rs_new[i - 1] == results@[i - 1]@);
            assert(content_of(rs_new[i - 1]) == content_view);
            lemma_harness_events_agree(times0, cm, rs_old, rs_new, i - 1, known, now, max);
            if executed {
                assert(observer.events() =~= ev0 + harness_events_upto(
                    times0,
                    cm,
                    rs_new,
                    i as int,
                    known,
                    now,
                    max,
                ));
                assert(content_of(rs_new[i - 1]) == result_content_spec(owit));
            } else {
                assert(observer.events() =~= ev0 + harness_events_upto(
                    times0,
                    cm,
                    rs_new,
                    i as int,
                    known,
                    now,
                    max,
                ));
            }
            assert forall|j: int| 0 <= j < i - 1 implies #[trigger] harness_result_ok(
                times0,
                cm,
                rs_new,
                j,
                known,
                now,
                max,
            ) by {
                assert(harness_result_ok(times0, cm, rs_old, j, known, now, max));
                assert(rs_new[j] == rs_old[j]);
            }
            assert(harness_result_ok(times0, cm, rs_new, i - 1, known, now, max));
        }
    }
    proof {
        assert(cm.take(n as int) =~= cm);
    }
    results
}

/// Appending a non-system message keeps the history shape.
proof fn lemma_push_keeps_shape(h: Seq<MsgModel>, m: MsgModel)
    requires
        history_shape(h),
        !is_system(m),
    ensures
        history_shape(h.push(m)),
{
    assert(h.push(m)[0] == h[0]);
    assert(forall|i: int| 1 <= i < h.len() ==> h.push(m)[i] == #[trigger] h[i]);
}

/// Appending a non-tool message keeps the clusters intact.
proof fn lemma_push_keeps_clusters(h: Seq<MsgModel>, m: MsgModel)
    requires
        clusters_intact(h),
        !is_tool(m),
    ensures
        clusters_intact(h.push(m)),
{
    let h2 = h.push(m);
    assert forall|j: int| 0 <= j < h2.len() && is_tool(#[trigger] h2[j]) implies exists|k: int|
        0 <= k < j && assistant_carries_id(#[trigger] h2[k], tool_id_of(h2[j])) && (forall|p: int|
            k < p < j ==> !is_user(#[trigger] h2[p])) by {
        assert(j < h.len());
        assert(h2[j] == h[j]);
        let k = choose|k: int|
            0 <= k < j && assistant_carries_id(#[trigger] h[k], tool_id_of(h[j])) && (forall|p: int|
                k < p < j ==> !is_user(#[trigger] h[p]));
        assert(h2[k] == h[k]);
        assert(forall|p: int| k < p < j ==> #[trigger] h2[p] == h[p]);
    }
}

/// Appending an assistant message and the tool results whose ids it
/// carries keeps both the shape and the clusters.
proof fn lemma_extend_with_results(h: Seq<MsgModel>, a: MsgModel, rs: Seq<MsgModel>)
    requires
        history_shape(h),
        clusters_intact(h),
        a matches MsgModel::Assistant { .. },
        forall|j: int|
            0 <= j < rs.len() ==> is_tool(#[trigger] rs[j]) && assistant_carries_id(
                a,
                tool_id_of(rs[j]),
            ),
    ensures
        history_shape(h.push(a) + rs),
        clusters_intact(h.push(a) + rs),
{
    let h2 = h.push(a) + rs;
    assert(h2[0] == h[0]);
    assert forall|i: int| 1 <= i < h2.len() implies !is_system(#[trigger] h2[i]) by {
        if i < h.len() {
            assert(h2[i] == h[i]);
        } else if i == h.len() {
            assert(h2[i] == a);
        } else {
            assert(h2[i] == rs[i - h.len() - 1]);
        }
    }
    assert forall|j: int| 0 <= j < h2.len() && is_tool(#[trigger] h2[j]) implies exists|k: int|
        0 <= k < j && assistant_carries_id(#[trigger] h2[k], tool_id_of(h2[j])) && (forall|p: int|
            k < p < j ==> !is_user(#[trigger] h2[p])) by {
        if j < h.len() {
            assert(h2[j] == h[j]);
            let k = choose|k: int|
                0 <= k < j && assistant_carries_id(#[trigger] h[k], tool_id_of(h[j])) && (forall|
                    p: int,
                |
                    k < p < j ==> !is_user(#[trigger] h[p]));
            assert(h2[k] == h[k]);
            assert(forall|p: int| k < p < j ==> #[trigger] h2[p] == h[p]);
        } else if j == h.len() {
            assert(h2[j] == a);
            assert(false);
        } else {
            assert(h2[j] == rs[j - h.len() - 1]);
            let k = h.len() as int;
            assert(h2[k] == a);
            assert(assistant_carries_id(h2[k], tool_id_of(h2[j])));
            assert(forall|p: int| k < p < j ==> #[trigger] h2[p] == rs[p - h.len() - 1]);
            assert(forall|p: int| k < p < j ==> !is_user(#[trigger] h2[p]));
        }
    }
}

/// The synthetic user message that forces a final answer once the
/// iteration budget is spent.
pub open spec fn budget_exhausted_nudge() -> Seq<char> {
    "你已达到工具调用的最大迭代次数。请根据目前收集的信息，立即给出最终回答。"@
}

/// What one pass of the loop decides from a provider response.
pub enum StepOutcome {
    /// The model answered with text: the turn is over.
    Done(String),
    /// The model asked for tools; their results are in the history and
    /// the conversation continues.
    Continue,
}

/// Handle one provider response: a text response is appended as the final
/// assistant message and ends the turn; a tool-use response is appended
/// with its calls, the calls are executed under the policy, and their
/// results follow in order.
pub fn loop_step<T: Tool, O: Observer>(
    history: &mut Vec<ChatMessage>,
    response: ChatResponse,
    tools: &Vec<ToolEntry<T>>,
    security: &mut SecurityPolicy,
    observer: &mut ObserverHandle<O>,
    now: u64,
) -> (r: StepOutcome)
    requires
        history_shape(hist_model(old(history)@)),
        clusters_intact(hist_model(old(history)@)),
    ensures
        history_shape(hist_model(final(history)@)),
        clusters_intact(hist_model(final(history)@)),
        final(history)@.len() > old(history)@.len(),
        hist_model(final(history)@).take(old(history)@.len() as int) == hist_model(
            old(history)@,
        ),
        forall|i: int|
            old(history)@.len() <= i < final(history)@.len() ==> !is_user(
                #[trigger] hist_model(final(history)@)[i],
            ),
        final(security).max_actions_per_hour == old(security).max_actions_per_hour,
        ({
            match response {
                ChatResponse::Text(t) => {
                    &&& hist_model(final(history)@) == hist_model(old(history)@).push(
                        MsgModel::Assistant { content: Some(t@), tool_calls: None },
                    )
                    &&& (r matches StepOutcome::Done(s) && s@ == t@)
                    &&& final(security).times() == old(security).times()
                    &&& final(observer).events() == old(observer).events()
                },
                ChatResponse::ToolUse { tool_calls, text } => {
                    let cm = calls_models(tool_calls@);
                    let known = |n: Seq<char>| has_tool(tools@, n);
                    let max = old(security).max_actions_per_hour;
                    let base = old(history)@.len() as int;
                    let fm = hist_model(final(history)@);
                    let rs = fm.subrange(base + 1, fm.len() as int);
                    &&& r is Continue
                    &&& fm.len() == base + 1 + cm.len()
                    &&& fm[base] == (MsgModel::Assistant {
                        content: match text {
                            Some(t) => Some(t@),
                            None => None,
                        },
                        tool_calls: Some(cm),
                    })
                    &&& harness_results_ok(old(security).times(), cm, rs, known, now, max)
                    &&& final(security).times() == times_after(
                        old(security).times(),
                        cm,
                        known,
                        now,
                        max,
                    )
                    &&& final(observer).events() == old(observer).events() + harness_events_upto(
                        old(security).times(),
                        cm,
                        rs,
                        cm.len() as int,
                        known,
                        now,
                        max,
                    )
                },
            }
        }),
{
    let ghost entry = hist_model(history@);
    match response {
        ChatResponse::Text(text) => {
            history.push(
                ChatMessage::Assistant { content: Some(text.clone()), tool_calls: None },
            );
            proof {
                let a = MsgModel::Assistant { content: Some(text@), tool_calls: None };
                assert(hist_model(history@) =~= entry.push(a));
                lemma_push_keeps_shape(entry, a);
                lemma_push_keeps_clusters(entry, a);
                assert(hist_model(history@).take(entry.len() as int) =~= entry);
            }
            StepOutcome::Done(text)
        },
        ChatResponse::ToolUse { tool_calls, text } => {
            let ghost a_model = MsgModel::Assistant {
                content: match &text {
                    Some(t) => Some(t@),
                    None => None,
                },
                tool_calls: Some(calls_models(tool_calls@)),
            };
            history.push(
                ChatMessage::Assistant { content: text, tool_calls: Some(
                    duplicate_calls(&tool_calls),
                ) },
            );
            proof {
                assert(hist_model(history@) =~= entry.push(a_model));
            }
            let mut results = execute_tool_calls(&tool_calls, tools, security, observer, now);
            let ghost rs = hist_model(results@);
            proof {
                assert(results@.len() == tool_calls@.len());
                assert forall|j: int| 0 <= j < rs.len() implies is_tool(#[trigger] rs[j])
                    && assistant_carries_id(a_model, tool_id_of(rs[j])) by {
                    let cm = calls_models(tool_calls@);
                    assert(harness_result_ok(
                        old(security).times(),
                        cm,
                        rs,
                        j,
                        |n: Seq<char>| has_tool(tools@, n),
                        now,
                        old(security).max_actions_per_hour,
                    ));
                    assert(is_tool(rs[j]) && tool_id_of(rs[j]) == cm[j].id);
                    assert(crate::history::assistant_call_count(a_model) == cm.len());
                    assert(crate::history::assistant_call_id(a_model, j) == cm[j].id);
                    assert(assistant_carries_id(a_model, tool_id_of(rs[j])));
                }
            }
            let ghost mid = hist_model(history@);
            history.append(&mut results);
            proof {
                assert(hist_model(history@) =~= mid + rs);
                assert(hist_model(history@) =~= entry.push(a_model) + rs);
                lemma_extend_with_results(entry, a_model, rs);
                let fm = hist_model(history@);
                assert(fm.take(entry.len() as int) =~= entry);
                assert(fm.subrange(entry.len() as int + 1, fm.len() as int) =~= rs);
                assert(forall|i: int|
                    entry.len() + 1 <= i < fm.len() ==> #[trigger] fm[i] == rs[i - entry.len()
                        - 1]);
            }
            StepOutcome::Continue
        },
    }
}

/// Run the tool-calling loop: send the history, execute requested tools,
/// feed results back, and repeat — at most `max_iterations` times, plus
/// one final tools-disabled call when the budget runs out.
///
/// The caller hands in a history whose first message is the system prompt
/// and whose last is the user's turn, with tool clusters intact. On
/// success the returned text is the content of the assistant message
/// appended last; the history only ever grows, its shape and its
/// tool-result pairing are preserved, the only user message the loop ever
/// appends is the budget-exhausted nudge, and the provider is consulted
/// at most `max_iterations + 1` times. What each response makes the loop
/// do stands in `loop_step`'s contract.
pub fn run_tool_loop<P: Provider, T: Tool, O: Observer>(
    provider: &mut ProviderHandle<P>,
    history: &mut Vec<ChatMessage>,
    tools: &Vec<ToolEntry<T>>,
    tool_definitions: &Vec<ToolDefinition>,
    model: &str,
    temperature_milli: u32,
    max_iterations: usize,
    security: &mut SecurityPolicy,
    observer: &mut ObserverHandle<O>,
) -> (r: Result<String, String>)
    requires
        history_shape(hist_model(old(history)@)),
        clusters_intact(hist_model(old(history)@)),
        is_user(hist_model(old(history)@).last()),
        max_iterations < usize::MAX,
    ensures
        final(provider).calls() <= old(provider).calls() + max_iterations + 1,
        history_shape(hist_model(final(history)@)),
        clusters_intact(hist_model(final(history)@)),
        final(history)@.len() >= old(history)@.len(),
        hist_model(final(history)@).take(old(history)@.len() as int) == hist_model(
            old(history)@,
        ),
        forall|i: int|
            old(history)@.len() <= i < final(history)@.len() && is_user(
                #[trigger] hist_model(final(history)@)[i],
            ) ==> content_of(hist_model(final(history)@)[i]) == budget_exhausted_nudge(),
        r matches Ok(t) ==> hist_model(final(history)@).last() == (MsgModel::Assistant {
            content: Some(t@),
            tool_calls: None,
        }),
        final(security).max_actions_per_hour == old(security).max_actions_per_hour,
{
    let ghost orig = hist_model(old(history)@);
    let ghost base_calls = provider.calls();
    let mut iteration: usize = 0;
    while iteration < max_iterations
        invariant
            orig == hist_model(old(history)@),
            base_calls == old(provider).calls(),
            provider.calls() == base_calls + iteration,
            iteration <= max_iterations,
            max_iterations < usize::MAX,
            history_shape(hist_model(history@)),
            clusters_intact(hist_model(history@)),
            history@.len() >= old(history)@.len(),
            hist_model(history@).take(old(history)@.len() as int) == orig,
            forall|i: int|
                old(history)@.len() <= i < history@.len() ==> !is_user(
                    #[trigger] hist_model(history@)[i],
                ),
            security.max_actions_per_hour == old(security).max_actions_per_hour,
        decreases max_iterations - iteration,
    {
        let response = match provider.chat_with_tools(
            &*history,
            tool_definitions,
            model,
            temperature_milli,
        ) {
            Ok(resp) => resp,
            Err(e) => {
                return Err(e);
            },
        };
        let now = crate::clock::now_unix_seconds();
        let ghost entry = hist_model(history@);
        let outcome = loop_step(history, response, tools, security, observer, now);
        proof {
            let fm = hist_model(history@);
            assert(fm.take(orig.len() as int) =~= entry.take(orig.len() as int));
            assert forall|i: int|
                old(history)@.len() <= i < history@.len() implies !is_user(
                #[trigger] fm[i]) by {
                if i < entry.len() {
                    assert(fm[i] == fm.take(entry.len() as int)[i]);
                    assert(fm[i] == entry[i]);
                }
            }
        }
        match outcome {
            StepOutcome::Done(text) => {
                return Ok(text);
            },
            StepOutcome::Continue => {
                iteration = iteration + 1;
            },
        }
    }
    // Budget exhausted: ask for a final text answer, tools disabled.
    let ghost before_nudge = hist_model(history@);
    history.push(
        ChatMessage::User { content: "你已达到工具调用的最大迭代次数。请根据目前收集的信息，立即给出最终回答。".to_owned() },
    );
    proof {
        let u = MsgModel::User { content: budget_exhausted_nudge() };
        assert(hist_model(history@) =~= before_nudge.push(u));
        lemma_push_keeps_shape(before_nudge, u);
        lemma_push_keeps_clusters(before_nudge, u);
        assert(hist_model(history@).take(old(history)@.len() as int) =~= before_nudge.take(
            old(history)@.len() as int,
        ));
    }
    let empty_defs: Vec<ToolDefinition> = Vec::new();
    let final_response = match provider.chat_with_tools(
        &*history,
        &empty_defs,
        model,
        temperature_milli,
    ) {
        Ok(resp) => resp,
        Err(e) => {
            return Err(e);
        },
    };
    let final_text: String = match final_response {
        ChatResponse::Text(text) => text,
        ChatResponse::ToolUse { text, .. } => {
            match text {
                Some(t) => t,
                None => "在迭代次数限制内未能给出最终回答。".to_owned(),
            }
        },
    };
    let ghost before_final = hist_model(history@);
    history.push(
        ChatMessage::Assistant { content: Some(final_text.clone()), tool_calls: None },
    );
    proof {
        let a = MsgModel::Assistant { content: Some(final_text@), tool_calls: None };
        assert(hist_model(history@) =~= before_final.push(a));
        lemma_push_keeps_shape(before_final, a);
        lemma_push_keeps_clusters(before_final, a);
        assert(hist_model(history@).take(old(history)@.len() as int) =~= before_final.take(
            old(history)@.len() as int,
        ));
    }
    Ok(final_text)
}


/// One recalled memory entry.
#[derive(Clone, Debug)]
pub struct MemoryEntry {
    pub key: String,
    pub content: String,
}

/// The model of a memory entry: its key and content.
pub open spec fn entry_model(e: MemoryEntry) -> (Seq<char>, Seq<char>) {
    (e.key@, e.content@)
}

/// One recalled line of the preamble.
pub open spec fn preamble_line(e: (Seq<char>, Seq<char>)) -> Seq<char> {
    "- "@ + e.0 + ": "@ + e.1 + "\n"@
}

/// The recalled lines, in order.
pub open spec fn preamble_lines(entries: Seq<(Seq<char>, Seq<char>)>) -> Seq<char>
    decreases entries.len(),
{
    if entries.len() == 0 {
        Seq::empty()
    } else {
        preamble_lines(entries.drop_last()) + preamble_line(entries.last())
    }
}

/// The memory-context preamble: nothing when nothing was recalled, else a
/// header line, one line per entry, and a blank line.
pub open spec fn memory_preamble_spec(entries: Seq<(Seq<char>, Seq<char>)>) -> Seq<char> {
    if entries.len() == 0 {
        Seq::empty()
    } else {
        "[Memory context]\n"@ + preamble_lines(entries) + "\n"@
    }
}

/// Build the memory-context preamble for the recalled entries.
pub fn memory_preamble(entries: &Vec<MemoryEntry>) -> (r: String)
    ensures
        r@ == memory_preamble_spec(entries@.map_values(|e: MemoryEntry| entry_model(e))),
{
    let ghost models = entries@.map_values(|e: MemoryEntry| entry_model(e));
    if entries.len() == 0 {
        proof {
            assert(models.len() == 0);
        }
        return String::new();
    }
    let mut s = String::new();
    s.append("[Memory context]\n");
    let n = entries.len();
    let mut i: usize = 0;
    proof {
        assert(models.take(0) =~= Seq::<(Seq<char>, Seq<char>)>::empty());
        assert(s@ =~= "[Memory context]\n"@ + preamble_lines(models.take(0)));
    }
    while i < n
        invariant
            n == entries@.len(),
            models == entries@.map_values(|e: MemoryEntry| entry_model(e)),
            i <= n,
            s@ == "[Memory context]\n"@ + preamble_lines(models.take(i as int)),
        decreases n - i,
    {
        s.append("- ");
        s.append(entries[i].key.as_str());
        s.append(": ");
        s.append(entries[i].content.as_str());
        s.append("\n");
        i = i + 1;
        proof {
            assert(models.take(i as int).drop_last() =~= models.take(i as int - 1));
            assert(models.take(i as int).last() == models[i - 1]);
            assert(s@ =~= "[Memory context]\n"@ + preamble_lines(models.take(i as int)));
        }
    }
    s.append("\n");
    proof {
        assert(models.take(n as int) =~= models);
        assert(s@ =~= memory_preamble_spec(models));
    }
    s
}

/// Prepend the memory preamble to the user's text; an empty preamble
/// leaves the text alone.
pub fn enrich_user_message(preamble: &str, message: &str) -> (r: String)
    ensures
        preamble@.len() == 0 ==> r@ == message@,
        preamble@.len() > 0 ==> r@ == preamble@ + message@,
{
    if preamble.unicode_len() == 0 {
        message.to_owned()
    } else {
        concat_str(preamble, message)
    }
}

} // verus!
