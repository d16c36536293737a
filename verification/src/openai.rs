//! The OpenAI Responses dialect: reading its streaming frames into
//! canonical events, and writing conversation history into its wire
//! shape.

use vstd::prelude::*;

use crate::config::LLMRequest;
use crate::strutil::str_eq;
use crate::types::{scrub_item, scrub_items, FinishReason, FunctionCall, FunctionCallV, InputItem,
    InputItemV, MessageV, OutputItemInfo, OutputItemInfoV, Role, StreamEvent, StreamEventV, Tool,
    Usage, UsageV};

verus! {

broadcast use vstd::string::group_string_axioms;

/// The frame-type names differ pairwise (their lengths already do).
proof fn lemma_frame_types_distinct()
    ensures
        "response.completed"@ != "response.output_text.delta"@,
        "response.completed"@ != "response.output_item.added"@,
        "response.completed"@ != "response.output_item.done"@,
        "response.output_item.added"@ != "response.output_text.delta"@,
        "response.output_item.done"@ != "response.output_text.delta"@,
        "response.output_item.done"@ != "response.output_item.added"@,
{
    reveal_strlit("response.completed");
    reveal_strlit("response.output_text.delta");
    reveal_strlit("response.output_item.added");
    reveal_strlit("response.output_item.done");
    assert("response.completed"@.len() == 18);
    assert("response.output_text.delta"@.len() == 26);
    assert("response.output_item.added"@.len() == 26);
    assert("response.output_item.done"@.len() == 25);
    assert("response.output_item.added"@[16] == 'i');
    assert("response.output_text.delta"@[16] == 't');
}

// --- Incoming frames ---

/// An output item carried inside a streaming frame.
#[derive(Debug, Clone)]
pub struct OpenAiItem {
    /// The provider's item id.
    pub id: String,
    /// The item's type discriminator, `message` or `function_call`.
    pub item_type: String,
    /// Function name, on function-call items.
    pub name: Option<String>,
    /// Full arguments JSON, present once the item is done.
    pub arguments: Option<String>,
    /// The id a later tool result must cite; falls back to `id`.
    pub call_id: Option<String>,
}

/// Abstract value of an `OpenAiItem`.
pub struct OpenAiItemV {
    pub id: Seq<char>,
    pub item_type: Seq<char>,
    pub name: Option<Seq<char>>,
    pub arguments: Option<Seq<char>>,
    pub call_id: Option<Seq<char>>,
}

impl View for OpenAiItem {
    type V = OpenAiItemV;

    open spec fn view(&self) -> OpenAiItemV {
        OpenAiItemV {
            id: self.id@,
            item_type: self.item_type@,
            name: match self.name {
                Some(ref s) => Some(s@),
                None => None,
            },
            arguments: match self.arguments {
                Some(ref s) => Some(s@),
                None => None,
            },
            call_id: match self.call_id {
                Some(ref s) => Some(s@),
                None => None,
            },
        }
    }
}

/// One entry of the final response's output list; only its type
/// discriminator bears on the finish reason.
#[derive(Debug, Clone)]
pub struct OpenAiOutput {
    pub output_type: String,
}

impl View for OpenAiOutput {
    type V = Seq<char>;

    open spec fn view(&self) -> Seq<char> {
        self.output_type@
    }
}

impl DeepView for OpenAiOutput {
    type V = Seq<char>;

    open spec fn deep_view(&self) -> Seq<char> {
        self@
    }
}

/// The final response body carried by a `response.completed` frame.
#[derive(Debug, Clone)]
pub struct OpenAiResponseBody {
    pub output: Vec<OpenAiOutput>,
    pub usage: Usage,
}

/// Abstract value of an `OpenAiResponseBody`.
pub struct OpenAiResponseBodyV {
    pub output: Seq<Seq<char>>,
    pub usage: UsageV,
}

impl View for OpenAiResponseBody {
    type V = OpenAiResponseBodyV;

    open spec fn view(&self) -> OpenAiResponseBodyV {
        OpenAiResponseBodyV { output: self.output.deep_view(), usage: self.usage@ }
    }
}

/// One parsed streaming frame of the Responses dialect: a type
/// discriminator and the payloads the recognized types carry.
#[derive(Debug, Clone)]
pub struct OpenAiFrame {
    pub event_type: String,
    pub delta: Option<String>,
    pub item: Option<OpenAiItem>,
    pub response: Option<OpenAiResponseBody>,
}

/// Abstract value of an `OpenAiFrame`.
pub struct OpenAiFrameV {
    pub event_type: Seq<char>,
    pub delta: Option<Seq<char>>,
    pub item: Option<OpenAiItemV>,
    pub response: Option<OpenAiResponseBodyV>,
}

impl View for OpenAiFrame {
    type V = OpenAiFrameV;

    open spec fn view(&self) -> OpenAiFrameV {
        OpenAiFrameV {
            event_type: self.event_type@,
            delta: match self.delta {
                Some(ref s) => Some(s@),
                None => None,
            },
            item: match self.item {
                Some(ref it) => Some(it@),
                None => None,
            },
            response: match self.response {
                Some(ref r) => Some(r@),
                None => None,
            },
        }
    }
}

// --- The normalizer ---

/// Whether any entry of the output list is a function call.
pub open spec fn any_function_call(output: Seq<Seq<char>>) -> bool {
    exists|i: int| 0 <= i < output.len() && output[i] == "function_call"@
}

/// The canonical events one frame yields. A text delta passes through
/// when nonempty; an added item announces text or a function call (name
/// defaulting to `unknown`); a done function-call item with name and
/// arguments completes the call, citing `call_id` and falling back to
/// the item id; `response.completed` yields the final `Done`, ToolCalls
/// when the output held a function call and Stop otherwise. Other frame
/// types yield nothing.
pub open spec fn openai_events(f: OpenAiFrameV) -> Seq<StreamEventV> {
    if f.event_type == "response.output_text.delta"@ {
        match f.delta {
            Some(d) => if d.len() > 0 {
                seq![StreamEventV::ContentDelta { delta: d }]
            } else {
                Seq::empty()
            },
            None => Seq::empty(),
        }
    } else if f.event_type == "response.output_item.added"@ {
        match f.item {
            Some(it) => seq![
                StreamEventV::OutputItemAdded {
                    item: if it.item_type == "function_call"@ {
                        OutputItemInfoV::FunctionCall {
                            name: match it.name {
                                Some(n) => n,
                                None => "unknown"@,
                            },
                            id: it.id,
                        }
                    } else {
                        OutputItemInfoV::Text
                    },
                },
            ],
            None => Seq::empty(),
        }
    } else if f.event_type == "response.output_item.done"@ {
        match f.item {
            Some(it) => if it.item_type == "function_call"@ && it.name is Some
                && it.arguments is Some {
                seq![
                    StreamEventV::FunctionCallComplete {
                        call: FunctionCallV {
                            id: it.id,
                            call_id: match it.call_id {
                                Some(c) => c,
                                None => it.id,
                            },
                            name: it.name->0,
                            arguments: it.arguments->0,
                        },
                    },
                ]
            } else {
                Seq::empty()
            },
            None => Seq::empty(),
        }
    } else if f.event_type == "response.completed"@ {
        match f.response {
            Some(resp) => seq![
                StreamEventV::Done {
                    finish_reason: if any_function_call(resp.output) {
                        FinishReason::ToolCalls
                    } else {
                        FinishReason::Stop
                    },
                    usage: resp.usage,
                },
            ],
            None => Seq::empty(),
        }
    } else {
        Seq::empty()
    }
}

/// Convert one streaming frame to canonical events.
pub fn convert_stream_event(frame: &OpenAiFrame) -> (r: Vec<StreamEvent>)
    ensures
        r.deep_view() == openai_events(frame@),
{
    let mut r: Vec<StreamEvent> = Vec::new();
    if str_eq(frame.event_type.as_str(), "response.output_text.delta") {
        match &frame.delta {
            Some(d) => {
                if !d.as_str().is_empty() {
                    r.push(StreamEvent::ContentDelta { delta: d.clone() });
                }
            },
            None => {},
        }
    } else if str_eq(frame.event_type.as_str(), "response.output_item.added") {
        match &frame.item {
            Some(it) => {
                let info = if str_eq(it.item_type.as_str(), "function_call") {
                    let name = match &it.name {
                        Some(n) => n.clone(),
                        None => String::from_str("unknown"),
                    };
                    OutputItemInfo::FunctionCall { name, id: it.id.clone() }
                } else {
                    OutputItemInfo::Text
                };
                r.push(StreamEvent::OutputItemAdded { item: info });
            },
            None => {},
        }
    } else if str_eq(frame.event_type.as_str(), "response.output_item.done") {
        match &frame.item {
            Some(it) => {
                if str_eq(it.item_type.as_str(), "function_call") {
                    match (&it.name, &it.arguments) {
                        (Some(name), Some(arguments)) => {
                            let call_id = match &it.call_id {
                                Some(c) => c.clone(),
                                None => it.id.clone(),
                            };
                            r.push(StreamEvent::FunctionCallComplete {
                                call: FunctionCall {
                                    id: it.id.clone(),
                                    call_id,
                                    name: name.clone(),
                                    arguments: arguments.clone(),
                                },
                            });
                        },
                        _ => {},
                    }
                }
            },
            None => {},
        }
    } else if str_eq(frame.event_type.as_str(), "response.completed") {
        match &frame.response {
            Some(resp) => {
                let mut has_call = false;
                let n = resp.output.len();
                for i in 0..n
                    invariant
                        n == resp.output@.len(),
                        has_call == (exists|k: int|
                            0 <= k < i && resp.output.deep_view()[k] == "function_call"@),
                {
                    if str_eq(resp.output[i].output_type.as_str(), "function_call") {
                        assert(resp.output.deep_view()[i as int] == "function_call"@);
                        has_call = true;
                    }
                }
                let finish = if has_call {
                    FinishReason::ToolCalls
                } else {
                    FinishReason::Stop
                };
                r.push(StreamEvent::Done {
                    finish_reason: finish,
                    usage: Usage {
                        input_tokens: resp.usage.input_tokens,
                        output_tokens: resp.usage.output_tokens,
                        cached_tokens: resp.usage.cached_tokens,
                    },
                });
            },
            None => {},
        }
    }
    proof {
        assert(r.deep_view() =~= openai_events(frame@));
    }
    r
}

/// No frame ever yields an empty text delta: empty deltas are dropped
/// before they reach the accumulator.
pub proof fn lemma_openai_no_empty_delta(f: OpenAiFrameV)
    ensures
        forall|i: int|
            0 <= i < openai_events(f).len() ==> ((#[trigger] openai_events(
                f,
            )[i]) matches StreamEventV::ContentDelta { delta } ==> delta.len() > 0),
{
}

/// Whether a frame is the terminal one: only `response.completed` with a
/// response body yields `Done`.
pub open spec fn openai_emits_done(f: OpenAiFrameV) -> bool {
    f.event_type == "response.completed"@ && f.response is Some
}

/// The concatenation of the events of a frame sequence, in order.
pub open spec fn openai_run(frames: Seq<OpenAiFrameV>) -> Seq<StreamEventV>
    decreases frames.len(),
{
    if frames.len() == 0 {
        Seq::empty()
    } else {
        openai_events(frames[0]) + openai_run(frames.drop_first())
    }
}

/// For a successful response — frames whose one terminal frame comes
/// last — exactly one `Done` is emitted, and it is the last event.
pub proof fn lemma_openai_single_done(frames: Seq<OpenAiFrameV>)
    requires
        frames.len() > 0,
        openai_emits_done(frames.last()),
        forall|i: int| 0 <= i < frames.len() - 1 ==> !openai_emits_done(#[trigger] frames[i]),
    ensures
        openai_run(frames).len() > 0,
        openai_run(frames).last() is Done,
        forall|i: int|
            0 <= i < openai_run(frames).len() - 1 ==> !((#[trigger] openai_run(
                frames,
            )[i]) is Done),
    decreases frames.len(),
{
    lemma_frame_types_distinct();
    let run = openai_run(frames);
    if frames.len() == 1 {
        assert(openai_run(frames.drop_first()) =~= Seq::<StreamEventV>::empty());
        assert(run =~= openai_events(frames[0]));
        assert(openai_events(frames[0]).len() == 1);
        assert(run.last() is Done);
    } else {
        let rest = frames.drop_first();
        assert(rest.last() == frames.last());
        assert forall|i: int| 0 <= i < rest.len() - 1 implies !openai_emits_done(
            #[trigger] rest[i],
        ) by {
            assert(rest[i] == frames[i + 1]);
        }
        lemma_openai_single_done(rest);
        let head = openai_events(frames[0]);
        assert(!openai_emits_done(frames[0]));
        assert(forall|i: int| 0 <= i < head.len() ==> !((#[trigger] head[i]) is Done));
        assert(run == head + openai_run(rest));
        assert(run.last() == openai_run(rest).last());
        assert forall|i: int| 0 <= i < run.len() - 1 implies !((#[trigger] run[i]) is Done) by {
            if i < head.len() {
                assert(run[i] == head[i]);
            } else {
                assert(run[i] == openai_run(rest)[i - head.len()]);
            }
        }
    }
}

/// Whether a frame completes a function call.
pub open spec fn openai_emits_completion(f: OpenAiFrameV) -> bool {
    f.event_type == "response.output_item.done"@ && (f.item matches Some(it) && it.item_type
        == "function_call"@ && it.name is Some && it.arguments is Some)
}

/// The name of the call a completion frame completes.
pub open spec fn openai_completion_name(f: OpenAiFrameV) -> Seq<char> {
    f.item->0.name->0
}

/// Whether a frame announces a function-call output item.
pub open spec fn openai_emits_fc_added(f: OpenAiFrameV) -> bool {
    f.event_type == "response.output_item.added"@ && (f.item matches Some(it) && it.item_type
        == "function_call"@)
}

/// The name such an announcement carries.
pub open spec fn openai_added_name(f: OpenAiFrameV) -> Seq<char> {
    match f.item->0.name {
        Some(n) => n,
        None => "unknown"@,
    }
}

/// Whether a frame sequence is well-formed for announcements: the wire
/// sends `response.output_item.added` for a function call before the
/// `response.output_item.done` that completes it, with the same name.
pub open spec fn openai_wf_announced(frames: Seq<OpenAiFrameV>) -> bool {
    forall|i: int|
        0 <= i < frames.len() ==> (openai_emits_completion(#[trigger] frames[i]) ==> exists|j: int|
            0 <= j < i && openai_emits_fc_added(#[trigger] frames[j]) && openai_added_name(
                frames[j],
            ) == openai_completion_name(frames[i]))
}

proof fn lemma_openai_run_announced(frames: Seq<OpenAiFrameV>, i: int, base: Seq<StreamEventV>)
    requires
        0 <= i <= frames.len(),
        openai_wf_announced(frames),
        forall|j: int|
            0 <= j < i && openai_emits_fc_added(#[trigger] frames[j])
                ==> crate::accumulator::has_added_with_name(base, openai_added_name(frames[j])),
    ensures
        ({
            let run = openai_run(frames.skip(i));
            forall|k: int|
                0 <= k < run.len() ==> (((#[trigger] run[k]) is FunctionCallComplete)
                    ==> crate::accumulator::has_added_with_name(
                    base + run.take(k),
                    run[k]->FunctionCallComplete_call.name,
                ))
        }),
    decreases frames.len() - i,
{
    lemma_frame_types_distinct();
    let evs = frames.skip(i);
    if evs.len() > 0 {
        let f = evs[0];
        assert(f == frames[i]);
        let out0 = openai_events(f);
        let rest = openai_run(evs.drop_first());
        assert(evs.drop_first() =~= frames.skip(i + 1));
        let run = openai_run(evs);
        assert(run == out0 + rest);
        // Completions in this frame's own events were announced earlier.
        assert forall|k: int|
            0 <= k < out0.len() && ((#[trigger] out0[k]) is FunctionCallComplete) implies
            crate::accumulator::has_added_with_name(
            base + out0.take(k),
            out0[k]->FunctionCallComplete_call.name,
        ) by {
            assert(openai_emits_completion(f));
            let j = choose|j: int|
                0 <= j < i && openai_emits_fc_added(#[trigger] frames[j]) && openai_added_name(
                    frames[j],
                ) == openai_completion_name(f);
            assert(crate::accumulator::has_added_with_name(base, openai_completion_name(f)));
            crate::accumulator::lemma_has_added_monotone(
                base,
                out0.take(k),
                openai_completion_name(f),
            );
        }
        // Carry the invariant one frame further.
        assert forall|j: int|
            0 <= j < i + 1 && openai_emits_fc_added(#[trigger] frames[j]) implies
            crate::accumulator::has_added_with_name(
            base + out0,
            openai_added_name(frames[j]),
        ) by {
            if j < i {
                crate::accumulator::lemma_has_added_monotone(
                    base,
                    out0,
                    openai_added_name(frames[j]),
                );
            } else {
                assert(openai_emits_fc_added(f));
                assert(crate::accumulator::is_fc_added_named(out0[0], openai_added_name(f)));
                assert((base + out0)[base.len() as int] == out0[0]);
            }
        }
        lemma_openai_run_announced(frames, i + 1, base + out0);
        assert forall|k: int|
            0 <= k < run.len() && ((#[trigger] run[k]) is FunctionCallComplete) implies
            crate::accumulator::has_added_with_name(
            base + run.take(k),
            run[k]->FunctionCallComplete_call.name,
        ) by {
            if k < out0.len() {
                assert(run[k] == out0[k]);
                assert(run.take(k) =~= out0.take(k));
            } else {
                assert(run[k] == rest[k - out0.len()]);
                assert((base + out0) + rest.take(k - out0.len()) =~= base + run.take(k));
            }
        }
    }
}

/// Every function-call completion in the canonical stream was announced
/// earlier in it with the same name — for any frame sequence where the
/// wire announced each call before completing it, which this dialect's
/// protocol promises.
pub proof fn lemma_openai_announced(frames: Seq<OpenAiFrameV>)
    requires
        openai_wf_announced(frames),
    ensures
        crate::accumulator::announced(openai_run(frames)),
{
    let run = openai_run(frames);
    assert(frames.skip(0) =~= frames);
    lemma_openai_run_announced(frames, 0, Seq::empty());
    assert forall|k: int|
        0 <= k < run.len() && ((#[trigger] run[k]) is FunctionCallComplete) implies
        crate::accumulator::has_added_with_name(
        run.take(k),
        run[k]->FunctionCallComplete_call.name,
    ) by {
        assert(Seq::<StreamEventV>::empty() + run.take(k) =~= run.take(k));
    }
}

/// End to end: every function-call item of a response buffered from a
/// well-formed Responses stream was announced in that stream, with its
/// name, before it completed.
pub proof fn lemma_openai_buffered_calls_announced(
    frames: Seq<OpenAiFrameV>,
    resp: crate::response::CompleteResponseV,
)
    requires
        openai_wf_announced(frames),
        crate::accumulator::buffer_outcome(openai_run(frames)) == Ok::<
            crate::response::CompleteResponseV,
            Seq<char>,
        >(resp),
    ensures
        forall|k: int|
            0 <= k < resp.output.len() ==> ((#[trigger] resp.output[k]) is FunctionCall
                ==> crate::accumulator::has_added_with_name(
                openai_run(frames),
                resp.output[k]->FunctionCall_call.name,
            )),
{
    lemma_openai_announced(frames);
    crate::accumulator::lemma_buffered_calls_were_announced(openai_run(frames), resp);
}

// --- Outgoing history encoding ---

/// One history entry in the Responses wire shape.
#[derive(Debug, Clone)]
pub enum OpenAiInputMessage {
    /// A plain message with role and content; system messages travel
    /// in-band with role `system`.
    Regular { role: String, content: String },
    /// A function call replayed into history.
    FunctionCall { call_id: String, name: String, arguments: String },
    /// The output of an earlier function call.
    FunctionCallOutput { call_id: String, output: String },
}

/// Abstract value of an `OpenAiInputMessage`.
pub enum OpenAiInputMessageV {
    Regular { role: Seq<char>, content: Seq<char> },
    FunctionCall { call_id: Seq<char>, name: Seq<char>, arguments: Seq<char> },
    FunctionCallOutput { call_id: Seq<char>, output: Seq<char> },
}

impl View for OpenAiInputMessage {
    type V = OpenAiInputMessageV;

    open spec fn view(&self) -> OpenAiInputMessageV {
        match self {
            OpenAiInputMessage::Regular { role, content } => OpenAiInputMessageV::Regular {
                role: role@,
                content: content@,
            },
            OpenAiInputMessage::FunctionCall { call_id, name, arguments } => {
                OpenAiInputMessageV::FunctionCall {
                    call_id: call_id@,
                    name: name@,
                    arguments: arguments@,
                }
            },
            OpenAiInputMessage::FunctionCallOutput { call_id, output } => {
                OpenAiInputMessageV::FunctionCallOutput { call_id: call_id@, output: output@ }
            },
        }
    }
}

impl DeepView for OpenAiInputMessage {
    type V = OpenAiInputMessageV;

    open spec fn deep_view(&self) -> OpenAiInputMessageV {
        self@
    }
}

/// The wire name of a role.
pub open spec fn role_name(role: Role) -> Seq<char> {
    match role {
        Role::System => "system"@,
        Role::User => "user"@,
        Role::Assistant => "assistant"@,
    }
}

/// The wire entry that stands for one input item.
pub open spec fn openai_item_of(item: InputItemV) -> OpenAiInputMessageV {
    match item {
        InputItemV::Message(m) => OpenAiInputMessageV::Regular {
            role: role_name(m.role),
            content: m.content,
        },
        InputItemV::FunctionCall(c) => OpenAiInputMessageV::FunctionCall {
            call_id: c.call_id,
            name: c.name,
            arguments: c.arguments,
        },
        InputItemV::FunctionCallOutput { call_id, output } => {
            OpenAiInputMessageV::FunctionCallOutput { call_id, output }
        },
    }
}

/// The wire entries that stand for a whole item list, in order.
pub open spec fn openai_items_of(items: Seq<InputItemV>) -> Seq<OpenAiInputMessageV> {
    items.map_values(|it: InputItemV| openai_item_of(it))
}

/// The exec name of a role.
pub fn role_name_exec(role: Role) -> (r: String)
    ensures
        r@ == role_name(role),
{
    match role {
        Role::System => String::from_str("system"),
        Role::User => String::from_str("user"),
        Role::Assistant => String::from_str("assistant"),
    }
}

/// Convert one input item to the Responses wire shape.
pub fn convert_message(item: &InputItem) -> (r: OpenAiInputMessage)
    ensures
        r@ == openai_item_of(item@),
{
    match item {
        InputItem::Message(msg) => OpenAiInputMessage::Regular {
            role: role_name_exec(msg.role),
            content: msg.content.clone(),
        },
        InputItem::FunctionCall(call) => OpenAiInputMessage::FunctionCall {
            call_id: call.call_id.clone(),
            name: call.name.clone(),
            arguments: call.arguments.clone(),
        },
        InputItem::FunctionCallOutput { call_id, output } => {
            OpenAiInputMessage::FunctionCallOutput {
                call_id: call_id.clone(),
                output: output.clone(),
            }
        },
    }
}

/// A tool in the Responses wire shape.
#[derive(Debug, Clone)]
pub struct OpenAiTool {
    pub tool_type: String,
    pub name: String,
    pub description: String,
    pub parameters: String,
}

/// Abstract value of an `OpenAiTool`.
pub struct OpenAiToolV {
    pub tool_type: Seq<char>,
    pub name: Seq<char>,
    pub description: Seq<char>,
    pub parameters: Seq<char>,
}

impl View for OpenAiTool {
    type V = OpenAiToolV;

    open spec fn view(&self) -> OpenAiToolV {
        OpenAiToolV {
            tool_type: self.tool_type@,
            name: self.name@,
            description: self.description@,
            parameters: self.parameters@,
        }
    }
}

impl DeepView for OpenAiTool {
    type V = OpenAiToolV;

    open spec fn deep_view(&self) -> OpenAiToolV {
        self@
    }
}

/// The wire shape of one offered tool.
pub open spec fn openai_tool_of(t: crate::types::ToolV) -> OpenAiToolV {
    OpenAiToolV {
        tool_type: "function"@,
        name: t.function.name,
        description: t.function.description,
        parameters: t.function.parameters,
    }
}

/// Convert the offered tools to the Responses wire shape.
pub fn convert_tools(tools: &Vec<Tool>) -> (r: Vec<OpenAiTool>)
    ensures
        r.deep_view() == tools.deep_view().map_values(|t: crate::types::ToolV| openai_tool_of(t)),
{
    let mut r: Vec<OpenAiTool> = Vec::new();
    let n = tools.len();
    for i in 0..n
        invariant
            n == tools@.len(),
            r.deep_view() =~= tools.deep_view().take(i as int).map_values(
                |t: crate::types::ToolV| openai_tool_of(t),
            ),
    {
        let t = &tools[i];
        let ghost prev = r.deep_view();
        r.push(OpenAiTool {
            tool_type: String::from_str("function"),
            name: t.function.name.clone(),
            description: t.function.description.clone(),
            parameters: t.function.parameters.clone(),
        });
        proof {
            assert(r.deep_view() =~= prev.push(openai_tool_of(tools.deep_view()[i as int])));
            assert(r.deep_view() =~= tools.deep_view().take(i + 1).map_values(
                |t: crate::types::ToolV| openai_tool_of(t),
            ));
        }
    }
    proof {
        assert(tools.deep_view().take(n as int) =~= tools.deep_view());
    }
    r
}

/// A whole request body in the Responses wire shape. `temperature` and
/// `top_p` are in thousandths, as in `LLMRequest`.
#[derive(Debug, Clone)]
pub struct ResponsesRequest {
    pub model: String,
    pub input: Vec<OpenAiInputMessage>,
    pub instructions: Option<String>,
    pub temperature: Option<u32>,
    pub max_output_tokens: Option<u32>,
    pub top_p: Option<u32>,
    pub tools: Option<Vec<OpenAiTool>>,
    pub tool_choice: Option<String>,
    pub parallel_tool_calls: Option<bool>,
    pub previous_response_id: Option<String>,
    pub stream: Option<bool>,
    pub store: Option<bool>,
}

/// Convert an `LLMRequest` to the Responses wire shape: every item maps
/// in order and in-band (no top-level instructions), tool calls stay
/// parallel, nothing is stored, and streaming is switched on.
pub fn convert_request(request: &LLMRequest) -> (r: ResponsesRequest)
    ensures
        r.model@ == request@.model,
        r.input.deep_view() == openai_items_of(request@.messages),
        r.instructions is None,
        r.temperature == request@.temperature,
        r.max_output_tokens == request@.max_tokens,
        r.top_p == request@.top_p,
        (match (request@.tools, r.tools) {
            (Some(ts), Some(ref ws)) => ws.deep_view() == ts.map_values(
                |t: crate::types::ToolV| openai_tool_of(t),
            ),
            (None, None) => true,
            _ => false,
        }),
        r.tool_choice is None,
        r.parallel_tool_calls == Some(true),
        r.previous_response_id is None,
        r.stream == Some(true),
        r.store == Some(false),
{
    let mut input: Vec<OpenAiInputMessage> = Vec::new();
    let n = request.messages.len();
    for i in 0..n
        invariant
            n == request.messages@.len(),
            input.deep_view() =~= openai_items_of(request@.messages.take(i as int)),
    {
        let ghost prev = input.deep_view();
        input.push(convert_message(&request.messages[i]));
        proof {
            assert(input.deep_view() =~= prev.push(openai_item_of(request@.messages[i as int])));
            assert(input.deep_view() =~= openai_items_of(request@.messages.take(i + 1)));
        }
    }
    proof {
        assert(request@.messages.take(n as int) =~= request@.messages);
    }
    let tools = match &request.tools {
        Some(ts) => Some(convert_tools(ts)),
        None => None,
    };
    ResponsesRequest {
        model: request.model.clone(),
        input,
        instructions: None,
        temperature: request.temperature,
        max_output_tokens: request.max_tokens,
        top_p: request.top_p,
        tools,
        tool_choice: None,
        parallel_tool_calls: Some(true),
        previous_response_id: None,
        stream: Some(true),
        store: Some(false),
    }
}

// --- Round trip ---

/// Reading one wire entry back as an input item; a regular entry whose
/// role names none of the three roles reads as nothing.
pub open spec fn openai_item_back(w: OpenAiInputMessageV) -> Option<InputItemV> {
    match w {
        OpenAiInputMessageV::Regular { role, content } => {
            if role == "system"@ {
                Some(InputItemV::Message(MessageV { role: Role::System, content }))
            } else if role == "user"@ {
                Some(InputItemV::Message(MessageV { role: Role::User, content }))
            } else if role == "assistant"@ {
                Some(InputItemV::Message(MessageV { role: Role::Assistant, content }))
            } else {
                None
            }
        },
        OpenAiInputMessageV::FunctionCall { call_id, name, arguments } => {
            Some(
                InputItemV::FunctionCall(
                    FunctionCallV { id: Seq::empty(), call_id, name, arguments },
                ),
            )
        },
        OpenAiInputMessageV::FunctionCallOutput { call_id, output } => {
            Some(InputItemV::FunctionCallOutput { call_id, output })
        },
    }
}

/// The three role names differ pairwise.
pub(crate) proof fn lemma_role_names_distinct()
    ensures
        "system"@ != "user"@,
        "system"@ != "assistant"@,
        "user"@ != "assistant"@,
        role_name(Role::System) == "system"@,
        role_name(Role::User) == "user"@,
        role_name(Role::Assistant) == "assistant"@,
{
    reveal_strlit("system");
    reveal_strlit("user");
    reveal_strlit("assistant");
    assert("system"@.len() == 6);
    assert("user"@.len() == 4);
    assert("assistant"@.len() == 9);
}

/// Encoding an input item into the Responses wire shape and reading it
/// back preserves role, text, tool-call identity (up to the
/// provider-side item id, which the wire does not carry) and
/// tool-result pairing.
pub proof fn lemma_openai_round_trip(item: InputItemV)
    ensures
        openai_item_back(openai_item_of(item)) == Some(scrub_item(item)),
{
    lemma_role_names_distinct();
}

/// The whole-list round trip: every item of an encoded list reads back
/// to the original item, in order, ids scrubbed.
pub proof fn lemma_openai_round_trip_list(items: Seq<InputItemV>)
    ensures
        openai_items_of(items).len() == items.len(),
        forall|i: int|
            0 <= i < items.len() ==> openai_item_back(#[trigger] openai_items_of(items)[i])
                == Some(scrub_items(items)[i]),
{
    assert forall|i: int| 0 <= i < items.len() implies openai_item_back(
        #[trigger] openai_items_of(items)[i],
    ) == Some(scrub_items(items)[i]) by {
        lemma_openai_round_trip(items[i]);
    }
}

} // verus!
