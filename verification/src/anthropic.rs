//! The Anthropic-on-Vertex dialect: reading its streaming
//! events into canonical events — including the incremental assembly of
//! tool-call argument JSON — and writing conversation history into its
//! wire shape.

use vstd::prelude::*;

use crate::accumulator::{announced, has_added_with_name, is_fc_added_named};
use crate::config::LLMRequest;
use crate::error::{Error, ErrorV};
use crate::strutil::str_eq;
use crate::types::{scrub_item, scrub_items, system_only_first, FinishReason, FunctionCall, FunctionCallV, InputItem,
    InputItemV, MessageV, OutputItemInfo, OutputItemInfoV, Role, StreamEvent, StreamEventV, Tool,
    Usage, UsageV};

verus! {

broadcast use vstd::string::group_string_axioms;

// --- Incoming events ---

/// A content block, as it appears in streamed events and in request
/// bodies. Tool-use input and JSON schemas are carried as JSON text.
#[derive(Debug, Clone)]
pub enum AnthropicContentBlock {
    Text { text: String },
    ToolUse { id: String, name: String, input: String },
    ToolResult { tool_use_id: String, content: String },
}

/// Abstract value of a content block.
pub enum AnthropicContentBlockV {
    Text { text: Seq<char> },
    ToolUse { id: Seq<char>, name: Seq<char>, input: Seq<char> },
    ToolResult { tool_use_id: Seq<char>, content: Seq<char> },
}

impl View for AnthropicContentBlock {
    type V = AnthropicContentBlockV;

    open spec fn view(&self) -> AnthropicContentBlockV {
        match self {
            AnthropicContentBlock::Text { text } => AnthropicContentBlockV::Text { text: text@ },
            AnthropicContentBlock::ToolUse { id, name, input } => AnthropicContentBlockV::ToolUse {
                id: id@,
                name: name@,
                input: input@,
            },
            AnthropicContentBlock::ToolResult { tool_use_id, content } => {
                AnthropicContentBlockV::ToolResult {
                    tool_use_id: tool_use_id@,
                    content: content@,
                }
            },
        }
    }
}

impl DeepView for AnthropicContentBlock {
    type V = AnthropicContentBlockV;

    open spec fn deep_view(&self) -> AnthropicContentBlockV {
        self@
    }
}

/// A delta within one content block.
#[derive(Debug, Clone)]
pub enum AnthropicContentDelta {
    TextDelta { text: String },
    InputJsonDelta { partial_json: String },
}

/// Abstract value of a content delta.
pub enum AnthropicContentDeltaV {
    TextDelta { text: Seq<char> },
    InputJsonDelta { partial_json: Seq<char> },
}

impl View for AnthropicContentDelta {
    type V = AnthropicContentDeltaV;

    open spec fn view(&self) -> AnthropicContentDeltaV {
        match self {
            AnthropicContentDelta::TextDelta { text } => AnthropicContentDeltaV::TextDelta {
                text: text@,
            },
            AnthropicContentDelta::InputJsonDelta { partial_json } => {
                AnthropicContentDeltaV::InputJsonDelta { partial_json: partial_json@ }
            },
        }
    }
}

/// Usage counters as the wire reports them; absent values default to 0.
#[derive(Debug, Clone)]
pub struct AnthropicUsage {
    pub input_tokens: Option<u32>,
    pub output_tokens: Option<u32>,
    pub cache_creation_input_tokens: Option<u32>,
    pub cache_read_input_tokens: Option<u32>,
}

/// Abstract value of `AnthropicUsage`.
pub struct AnthropicUsageV {
    pub input_tokens: Option<u32>,
    pub output_tokens: Option<u32>,
    pub cache_creation_input_tokens: Option<u32>,
    pub cache_read_input_tokens: Option<u32>,
}

impl View for AnthropicUsage {
    type V = AnthropicUsageV;

    open spec fn view(&self) -> AnthropicUsageV {
        AnthropicUsageV {
            input_tokens: self.input_tokens,
            output_tokens: self.output_tokens,
            cache_creation_input_tokens: self.cache_creation_input_tokens,
            cache_read_input_tokens: self.cache_read_input_tokens,
        }
    }
}

/// The canonical usage an Anthropic usage report stands for.
pub open spec fn usage_of(u: AnthropicUsageV) -> UsageV {
    UsageV {
        input_tokens: match u.input_tokens {
            Some(x) => x,
            None => 0,
        },
        output_tokens: match u.output_tokens {
            Some(x) => x,
            None => 0,
        },
        cached_tokens: u.cache_creation_input_tokens,
    }
}

/// Convert a wire usage report to canonical usage.
pub fn convert_usage(u: &AnthropicUsage) -> (r: Usage)
    ensures
        r@ == usage_of(u@),
{
    Usage {
        input_tokens: match u.input_tokens {
            Some(x) => x,
            None => 0,
        },
        output_tokens: match u.output_tokens {
            Some(x) => x,
            None => 0,
        },
        cached_tokens: u.cache_creation_input_tokens,
    }
}

/// The message-level delta: stop reason and usage for finalization.
#[derive(Debug, Clone)]
pub struct AnthropicMessageDelta {
    pub stop_reason: Option<String>,
    pub usage: Option<AnthropicUsage>,
}

/// One parsed streaming event of the Anthropic dialect.
#[derive(Debug, Clone)]
pub enum AnthropicStreamEvent {
    MessageStart,
    ContentBlockStart { index: u32, content_block: AnthropicContentBlock },
    ContentBlockDelta { index: u32, delta: AnthropicContentDelta },
    ContentBlockStop { index: u32 },
    MessageDelta { delta: AnthropicMessageDelta },
    MessageStop,
    Ping,
}

/// Abstract value of a streaming event.
pub enum AnthropicStreamEventV {
    MessageStart,
    ContentBlockStart { index: u32, content_block: AnthropicContentBlockV },
    ContentBlockDelta { index: u32, delta: AnthropicContentDeltaV },
    ContentBlockStop { index: u32 },
    MessageDelta { stop_reason: Option<Seq<char>>, usage: Option<AnthropicUsageV> },
    MessageStop,
    Ping,
}

impl View for AnthropicStreamEvent {
    type V = AnthropicStreamEventV;

    open spec fn view(&self) -> AnthropicStreamEventV {
        match self {
            AnthropicStreamEvent::MessageStart => AnthropicStreamEventV::MessageStart,
            AnthropicStreamEvent::ContentBlockStart { index, content_block } => {
                AnthropicStreamEventV::ContentBlockStart {
                    index: *index,
                    content_block: content_block@,
                }
            },
            AnthropicStreamEvent::ContentBlockDelta { index, delta } => {
                AnthropicStreamEventV::ContentBlockDelta { index: *index, delta: delta@ }
            },
            AnthropicStreamEvent::ContentBlockStop { index } => {
                AnthropicStreamEventV::ContentBlockStop { index: *index }
            },
            AnthropicStreamEvent::MessageDelta { delta } => AnthropicStreamEventV::MessageDelta {
                stop_reason: match delta.stop_reason {
                    Some(ref s) => Some(s@),
                    None => None,
                },
                usage: match delta.usage {
                    Some(ref u) => Some(u@),
                    None => None,
                },
            },
            AnthropicStreamEvent::MessageStop => AnthropicStreamEventV::MessageStop,
            AnthropicStreamEvent::Ping => AnthropicStreamEventV::Ping,
        }
    }
}

// --- The normalizer state machine ---

/// A tool call under assembly: announced at `content_block_start`,
/// completed at `content_block_stop` of the same block index.
#[derive(Debug, Clone)]
pub struct InProgressCall {
    pub index: u32,
    pub id: String,
    pub name: String,
    /// The argument JSON assembled so far.
    pub input_buffer: String,
    /// Whether the block start carried a complete initial input. When it
    /// did, later JSON deltas re-encode the same value and replace the
    /// buffer; when it did not, deltas append to it.
    pub has_initial_input: bool,
}

/// Abstract value of an in-progress call.
pub struct InProgressCallV {
    pub index: u32,
    pub id: Seq<char>,
    pub name: Seq<char>,
    pub input_buffer: Seq<char>,
    pub has_initial_input: bool,
}

impl View for InProgressCall {
    type V = InProgressCallV;

    open spec fn view(&self) -> InProgressCallV {
        InProgressCallV {
            index: self.index,
            id: self.id@,
            name: self.name@,
            input_buffer: self.input_buffer@,
            has_initial_input: self.has_initial_input,
        }
    }
}

impl DeepView for InProgressCall {
    type V = InProgressCallV;

    open spec fn deep_view(&self) -> InProgressCallV {
        self@
    }
}

/// Abstract state of the normalizer.
pub struct AnthStateV {
    pub calls: Seq<InProgressCallV>,
    pub finish: Option<FinishReason>,
    pub usage: Option<UsageV>,
}

/// The state a fresh normalizer starts in.
pub open spec fn anth_init() -> AnthStateV {
    AnthStateV { calls: Seq::empty(), finish: None, usage: None }
}

/// The position of the in-progress call for a block index, or the
/// length when none is held.
pub open spec fn find_call(calls: Seq<InProgressCallV>, index: u32) -> int
    decreases calls.len(),
{
    if calls.len() == 0 {
        0
    } else if calls[0].index == index {
        0
    } else {
        1 + find_call(calls.drop_first(), index)
    }
}

/// The finish reason an Anthropic stop reason names; everything unknown
/// maps to Stop.
pub open spec fn map_stop_reason(s: Seq<char>) -> FinishReason {
    if s == "max_tokens"@ {
        FinishReason::Length
    } else if s == "tool_use"@ {
        FinishReason::ToolCalls
    } else {
        FinishReason::Stop
    }
}

/// Whether a tool-use initial input counts as absent: JSON `null`, an
/// empty object, or nothing at all.
pub open spec fn empty_input(input: Seq<char>) -> bool {
    input.len() == 0 || input == "null"@ || input == "{}"@
}

/// The state after one streaming event.
pub open spec fn anth_step_state(st: AnthStateV, ev: AnthropicStreamEventV) -> AnthStateV {
    match ev {
        AnthropicStreamEventV::ContentBlockStart { index, content_block } => {
            match content_block {
                AnthropicContentBlockV::ToolUse { id, name, input } => {
                    let entry = InProgressCallV {
                        index,
                        id,
                        name,
                        input_buffer: if empty_input(input) {
                            Seq::empty()
                        } else {
                            input
                        },
                        has_initial_input: !empty_input(input),
                    };
                    let pos = find_call(st.calls, index);
                    if pos < st.calls.len() {
                        AnthStateV { calls: st.calls.update(pos, entry), ..st }
                    } else {
                        AnthStateV { calls: st.calls.push(entry), ..st }
                    }
                },
                _ => st,
            }
        },
        AnthropicStreamEventV::ContentBlockDelta { index, delta } => {
            match delta {
                AnthropicContentDeltaV::InputJsonDelta { partial_json } => {
                    let pos = find_call(st.calls, index);
                    if pos < st.calls.len() {
                        let e = st.calls[pos];
                        let e2 = InProgressCallV {
                            input_buffer: if e.has_initial_input {
                                partial_json
                            } else {
                                e.input_buffer + partial_json
                            },
                            ..e
                        };
                        AnthStateV { calls: st.calls.update(pos, e2), ..st }
                    } else {
                        st
                    }
                },
                _ => st,
            }
        },
        AnthropicStreamEventV::ContentBlockStop { index } => {
            let pos = find_call(st.calls, index);
            if pos < st.calls.len() {
                AnthStateV { calls: st.calls.remove(pos), ..st }
            } else {
                st
            }
        },
        AnthropicStreamEventV::MessageDelta { stop_reason, usage } => AnthStateV {
            finish: match stop_reason {
                Some(s) => Some(map_stop_reason(s)),
                None => st.finish,
            },
            usage: match usage {
                Some(u) => Some(usage_of(u)),
                None => st.usage,
            },
            ..st
        },
        _ => st,
    }
}

/// The canonical events one streaming event yields.
pub open spec fn anth_step_events(st: AnthStateV, ev: AnthropicStreamEventV) -> Seq<StreamEventV> {
    match ev {
        AnthropicStreamEventV::ContentBlockStart { index, content_block } => {
            match content_block {
                AnthropicContentBlockV::Text { text } => {
                    seq![StreamEventV::OutputItemAdded { item: OutputItemInfoV::Text }] + (
                    if text.len() > 0 {
                        seq![StreamEventV::ContentDelta { delta: text }]
                    } else {
                        Seq::empty()
                    })
                },
                AnthropicContentBlockV::ToolUse { id, name, input } => {
                    seq![
                        StreamEventV::OutputItemAdded {
                            item: OutputItemInfoV::FunctionCall { name, id },
                        },
                    ]
                },
                AnthropicContentBlockV::ToolResult { .. } => Seq::empty(),
            }
        },
        AnthropicStreamEventV::ContentBlockDelta { index, delta } => {
            match delta {
                AnthropicContentDeltaV::TextDelta { text } => {
                    if text.len() > 0 {
                        seq![StreamEventV::ContentDelta { delta: text }]
                    } else {
                        Seq::empty()
                    }
                },
                AnthropicContentDeltaV::InputJsonDelta { .. } => Seq::empty(),
            }
        },
        AnthropicStreamEventV::ContentBlockStop { index } => {
            let pos = find_call(st.calls, index);
            if pos < st.calls.len() {
                let e = st.calls[pos];
                seq![
                    StreamEventV::FunctionCallComplete {
                        call: FunctionCallV {
                            id: e.id,
                            call_id: e.id,
                            name: e.name,
                            arguments: e.input_buffer,
                        },
                    },
                ]
            } else {
                Seq::empty()
            }
        },
        AnthropicStreamEventV::MessageStop => {
            seq![
                StreamEventV::Done {
                    finish_reason: match st.finish {
                        Some(f) => f,
                        None => FinishReason::Stop,
                    },
                    usage: match st.usage {
                        Some(u) => u,
                        None => UsageV::zero(),
                    },
                },
            ]
        },
        _ => Seq::empty(),
    }
}

/// The normalizer for one Anthropic response stream.
#[derive(Debug)]
pub struct AnthropicNormalizer {
    in_progress: Vec<InProgressCall>,
    finish: Option<FinishReason>,
    usage: Option<Usage>,
}

impl View for AnthropicNormalizer {
    type V = AnthStateV;

    closed spec fn view(&self) -> AnthStateV {
        AnthStateV {
            calls: self.in_progress.deep_view(),
            finish: self.finish,
            usage: match self.usage {
                Some(ref u) => Some(u@),
                None => None,
            },
        }
    }
}

impl AnthropicNormalizer {
    /// Create a normalizer for one response stream.
    pub fn new() -> (r: AnthropicNormalizer)
        ensures
            r@ == anth_init(),
    {
        let r = AnthropicNormalizer { in_progress: Vec::new(), finish: None, usage: None };
        proof {
            assert(r@.calls =~= anth_init().calls);
        }
        r
    }

    /// The position of the in-progress call for `index`, or the length.
    fn find_position(&self, index: u32) -> (r: usize)
        ensures
            r as int == find_call(self@.calls, index),
            r <= self@.calls.len(),
    {
        let n = self.in_progress.len();
        let mut i: usize = 0;
        while i < n && self.in_progress[i].index != index
            invariant
                0 <= i <= n,
                n == self.in_progress@.len(),
                forall|k: int| 0 <= k < i ==> (#[trigger] self@.calls[k]).index != index,
            decreases n - i,
        {
            i = i + 1;
        }
        proof {
            lemma_find_call_is(self@.calls, index, i as int);
        }
        i
    }

    /// Convert one streaming event, updating the assembly state and
    /// returning the canonical events it yields.
    pub fn convert_stream_event(&mut self, event: &AnthropicStreamEvent) -> (r: Vec<StreamEvent>)
        ensures
            final(self)@ == anth_step_state(old(self)@, event@),
            r.deep_view() == anth_step_events(old(self)@, event@),
    {
        let ghost st0 = self@;
        let mut out: Vec<StreamEvent> = Vec::new();
        match event {
            AnthropicStreamEvent::MessageStart => {},
            AnthropicStreamEvent::ContentBlockStart { index, content_block } => {
                match content_block {
                    AnthropicContentBlock::Text { text } => {
                        out.push(StreamEvent::OutputItemAdded { item: OutputItemInfo::Text });
                        if !text.as_str().is_empty() {
                            out.push(StreamEvent::ContentDelta { delta: text.clone() });
                        }
                    },
                    AnthropicContentBlock::ToolUse { id, name, input } => {
                        out.push(StreamEvent::OutputItemAdded {
                            item: OutputItemInfo::FunctionCall {
                                name: name.clone(),
                                id: id.clone(),
                            },
                        });
                        let is_empty_input = input.as_str().is_empty() || str_eq(
                            input.as_str(),
                            "null",
                        ) || str_eq(input.as_str(), "{}");
                        let entry = InProgressCall {
                            index: *index,
                            id: id.clone(),
                            name: name.clone(),
                            input_buffer: if is_empty_input {
                                String::new()
                            } else {
                                input.clone()
                            },
                            has_initial_input: !is_empty_input,
                        };
                        let ghost entryv = entry@;
                        let pos = self.find_position(*index);
                        let ghost prev = self@.calls;
                        if pos < self.in_progress.len() {
                            self.in_progress.set(pos, entry);
                            proof {
                                assert(self@.calls =~= prev.update(pos as int, entryv));
                            }
                        } else {
                            self.in_progress.push(entry);
                            proof {
                                assert(self@.calls =~= prev.push(entryv));
                            }
                        }
                    },
                    AnthropicContentBlock::ToolResult { .. } => {},
                }
            },
            AnthropicStreamEvent::ContentBlockDelta { index, delta } => {
                match delta {
                    AnthropicContentDelta::TextDelta { text } => {
                        if !text.as_str().is_empty() {
                            out.push(StreamEvent::ContentDelta { delta: text.clone() });
                        }
                    },
                    AnthropicContentDelta::InputJsonDelta { partial_json } => {
                        let pos = self.find_position(*index);
                        let ghost prev = self@.calls;
                        if pos < self.in_progress.len() {
                            let old_entry = self.in_progress[pos].duplicate();
                            let new_buffer = if old_entry.has_initial_input {
                                partial_json.clone()
                            } else {
                                let mut b = old_entry.input_buffer;
                                b.append(partial_json.as_str());
                                b
                            };
                            let entry = InProgressCall {
                                index: old_entry.index,
                                id: old_entry.id,
                                name: old_entry.name,
                                input_buffer: new_buffer,
                                has_initial_input: old_entry.has_initial_input,
                            };
                            let ghost entryv = entry@;
                            self.in_progress.set(pos, entry);
                            proof {
                                assert(self@.calls =~= prev.update(pos as int, entryv));
                            }
                        }
                    },
                }
            },
            AnthropicStreamEvent::ContentBlockStop { index } => {
                let pos = self.find_position(*index);
                let ghost prev = self@.calls;
                if pos < self.in_progress.len() {
                    let entry = self.in_progress.remove(pos);
                    out.push(StreamEvent::FunctionCallComplete {
                        call: FunctionCall {
                            id: entry.id.clone(),
                            call_id: entry.id,
                            name: entry.name,
                            arguments: entry.input_buffer,
                        },
                    });
                    proof {
                        assert(self@.calls =~= prev.remove(pos as int));
                    }
                }
            },
            AnthropicStreamEvent::MessageDelta { delta } => {
                match &delta.stop_reason {
                    Some(s) => {
                        let f = if str_eq(s.as_str(), "max_tokens") {
                            FinishReason::Length
                        } else if str_eq(s.as_str(), "tool_use") {
                            FinishReason::ToolCalls
                        } else {
                            FinishReason::Stop
                        };
                        self.finish = Some(f);
                    },
                    None => {},
                }
                match &delta.usage {
                    Some(u) => {
                        self.usage = Some(convert_usage(u));
                    },
                    None => {},
                }
            },
            AnthropicStreamEvent::MessageStop => {
                let finish = match self.finish {
                    Some(f) => f,
                    None => FinishReason::Stop,
                };
                let usage = match &self.usage {
                    Some(u) => Usage {
                        input_tokens: u.input_tokens,
                        output_tokens: u.output_tokens,
                        cached_tokens: u.cached_tokens,
                    },
                    None => Usage::zero(),
                };
                out.push(StreamEvent::Done { finish_reason: finish, usage });
            },
            AnthropicStreamEvent::Ping => {},
        }
        proof {
            assert(out.deep_view() =~= anth_step_events(st0, event@));
        }
        out
    }
}

impl InProgressCall {
    /// A field-by-field copy with the same abstract value.
    pub fn duplicate(&self) -> (r: InProgressCall)
        ensures
            r@ == self@,
    {
        InProgressCall {
            index: self.index,
            id: self.id.clone(),
            name: self.name.clone(),
            input_buffer: self.input_buffer.clone(),
            has_initial_input: self.has_initial_input,
        }
    }
}

/// A scan that saw no call for `index` before `n`, and one (or the end)
/// at `n`, settles `find_call`.
proof fn lemma_find_call_is(calls: Seq<InProgressCallV>, index: u32, n: int)
    requires
        0 <= n <= calls.len(),
        forall|k: int| 0 <= k < n ==> (#[trigger] calls[k]).index != index,
        n < calls.len() ==> calls[n].index == index,
    ensures
        find_call(calls, index) == n,
    decreases calls.len(),
{
    if calls.len() > 0 && calls[0].index != index {
        assert forall|k: int| 0 <= k < n - 1 implies (#[trigger] calls.drop_first()[k]).index
            != index by {
            assert(calls[k + 1].index != index);
        }
        lemma_find_call_is(calls.drop_first(), index, n - 1);
    }
}

/// `find_call` stays within the sequence and hits the index it names.
proof fn lemma_find_call_in_range(calls: Seq<InProgressCallV>, index: u32)
    ensures
        0 <= find_call(calls, index) <= calls.len(),
        find_call(calls, index) < calls.len() ==> calls[find_call(calls, index)].index == index,
    decreases calls.len(),
{
    if calls.len() > 0 && calls[0].index != index {
        lemma_find_call_in_range(calls.drop_first(), index);
        if find_call(calls, index) < calls.len() {
            assert(calls[find_call(calls, index)] == calls.drop_first()[find_call(
                calls.drop_first(),
                index,
            )]);
        }
    }
}

// --- Runs over whole event sequences ---

/// The state after a sequence of streaming events.
pub open spec fn anth_run_state(st: AnthStateV, evs: Seq<AnthropicStreamEventV>) -> AnthStateV
    decreases evs.len(),
{
    if evs.len() == 0 {
        st
    } else {
        anth_run_state(anth_step_state(st, evs[0]), evs.drop_first())
    }
}

/// The canonical events a sequence of streaming events yields, in
/// order.
pub open spec fn anth_run_events(st: AnthStateV, evs: Seq<AnthropicStreamEventV>) -> Seq<
    StreamEventV,
>
    decreases evs.len(),
{
    if evs.len() == 0 {
        Seq::empty()
    } else {
        anth_step_events(st, evs[0]) + anth_run_events(
            anth_step_state(st, evs[0]),
            evs.drop_first(),
        )
    }
}

/// Exactly one `Done` is emitted, and it is the last event, for any
/// stream whose one `message_stop` comes last.
pub proof fn lemma_anthropic_single_done(st: AnthStateV, evs: Seq<AnthropicStreamEventV>)
    requires
        evs.len() > 0,
        evs.last() is MessageStop,
        forall|i: int| 0 <= i < evs.len() - 1 ==> !((#[trigger] evs[i]) is MessageStop),
    ensures
        anth_run_events(st, evs).len() > 0,
        anth_run_events(st, evs).last() is Done,
        forall|i: int|
            0 <= i < anth_run_events(st, evs).len() - 1 ==> !((#[trigger] anth_run_events(
                st,
                evs,
            )[i]) is Done),
    decreases evs.len(),
{
    let run = anth_run_events(st, evs);
    let head = anth_step_events(st, evs[0]);
    if evs.len() == 1 {
        assert(anth_run_events(anth_step_state(st, evs[0]), evs.drop_first()) =~= Seq::<
            StreamEventV,
        >::empty());
        assert(run =~= head);
    } else {
        let st1 = anth_step_state(st, evs[0]);
        let rest = evs.drop_first();
        assert(rest.last() == evs.last());
        assert forall|i: int| 0 <= i < rest.len() - 1 implies !((#[trigger] rest[i])
            is MessageStop) by {
            assert(rest[i] == evs[i + 1]);
        }
        lemma_anthropic_single_done(st1, rest);
        assert(!(evs[0] is MessageStop));
        assert(forall|i: int| 0 <= i < head.len() ==> !((#[trigger] head[i]) is Done));
        let tail = anth_run_events(st1, rest);
        assert(run == head + tail);
        assert(run.last() == tail.last());
        assert forall|i: int| 0 <= i < run.len() - 1 implies !((#[trigger] run[i]) is Done) by {
            if i < head.len() {
                assert(run[i] == head[i]);
            } else {
                assert(run[i] == tail[i - head.len()]);
            }
        }
    }
}

/// No event ever yields an empty text delta.
pub proof fn lemma_anthropic_no_empty_delta(st: AnthStateV, ev: AnthropicStreamEventV)
    ensures
        forall|i: int|
            0 <= i < anth_step_events(st, ev).len() ==> ((#[trigger] anth_step_events(
                st,
                ev,
            )[i]) matches StreamEventV::ContentDelta { delta } ==> delta.len() > 0),
{
}

/// Every in-progress call was announced among the given events.
spec fn calls_announced_in(calls: Seq<InProgressCallV>, evs: Seq<StreamEventV>) -> bool {
    forall|k: int|
        0 <= k < calls.len() ==> has_added_with_name(evs, (#[trigger] calls[k]).name)
}

/// One step keeps every held call announced, counting the events the
/// step emitted.
proof fn lemma_anth_step_announced(
    st: AnthStateV,
    ev: AnthropicStreamEventV,
    base: Seq<StreamEventV>,
)
    requires
        calls_announced_in(st.calls, base),
    ensures
        calls_announced_in(
            anth_step_state(st, ev).calls,
            base + anth_step_events(st, ev),
        ),
        forall|j: int|
            0 <= j < anth_step_events(st, ev).len() ==> (((#[trigger] anth_step_events(st, ev)[j])
                is FunctionCallComplete) ==> has_added_with_name(
                base + anth_step_events(st, ev).take(j),
                anth_step_events(st, ev)[j]->FunctionCallComplete_call.name,
            )),
{
    let out = anth_step_events(st, ev);
    let st1 = anth_step_state(st, ev);
    assert forall|k: int| 0 <= k < st1.calls.len() implies has_added_with_name(
        base + out,
        (#[trigger] st1.calls[k]).name,
    ) by {
        match ev {
            AnthropicStreamEventV::ContentBlockStart { index, content_block } => {
                match content_block {
                    AnthropicContentBlockV::ToolUse { id, name, input } => {
                        let pos = find_call(st.calls, index);
                        lemma_find_call_in_range(st.calls, index);
                        if st1.calls[k].name == name {
                            assert(is_fc_added_named(out[0], name));
                            assert((base + out)[base.len() as int] == out[0]);
                        } else {
                            if pos < st.calls.len() {
                                assert(k != pos);
                                assert(st1.calls[k] == st.calls[k]);
                            } else {
                                assert(k < st.calls.len());
                                assert(st1.calls[k] == st.calls[k]);
                            }
                            lemma_has_added_monotone_local(base, out, st.calls[k].name);
                        }
                    },
                    _ => {
                        lemma_has_added_monotone_local(base, out, st.calls[k].name);
                    },
                }
            },
            AnthropicStreamEventV::ContentBlockDelta { index, delta } => {
                let pos = find_call(st.calls, index);
                lemma_find_call_in_range(st.calls, index);
                match delta {
                    AnthropicContentDeltaV::InputJsonDelta { partial_json } => {
                        if pos < st.calls.len() && k == pos {
                            assert(st1.calls[k].name == st.calls[k].name);
                        } else {
                            assert(st1.calls[k] == st.calls[k]);
                        }
                        lemma_has_added_monotone_local(base, out, st.calls[k].name);
                    },
                    _ => {
                        assert(st1.calls[k] == st.calls[k]);
                        lemma_has_added_monotone_local(base, out, st.calls[k].name);
                    },
                }
            },
            AnthropicStreamEventV::ContentBlockStop { index } => {
                let pos = find_call(st.calls, index);
                lemma_find_call_in_range(st.calls, index);
                if pos < st.calls.len() {
                    if k < pos {
                        assert(st1.calls[k] == st.calls[k]);
                        lemma_has_added_monotone_local(base, out, st.calls[k].name);
                    } else {
                        assert(st1.calls[k] == st.calls[k + 1]);
                        lemma_has_added_monotone_local(base, out, st.calls[k + 1].name);
                    }
                } else {
                    assert(st1.calls[k] == st.calls[k]);
                    lemma_has_added_monotone_local(base, out, st.calls[k].name);
                }
            },
            _ => {
                assert(st1.calls[k] == st.calls[k]);
                lemma_has_added_monotone_local(base, out, st.calls[k].name);
            },
        }
    }
    assert forall|j: int|
        0 <= j < out.len() && ((#[trigger] out[j]) is FunctionCallComplete) implies
        has_added_with_name(base + out.take(j), out[j]->FunctionCallComplete_call.name) by {
        match ev {
            AnthropicStreamEventV::ContentBlockStop { index } => {
                let pos = find_call(st.calls, index);
                assert(pos < st.calls.len());
                assert(out[j]->FunctionCallComplete_call.name == st.calls[pos].name);
                lemma_find_call_in_range(st.calls, index);
                lemma_has_added_monotone_local(base, out.take(j), st.calls[pos].name);
            },
            _ => {},
        }
    }
}

/// Local restatement of announcement monotonicity.
proof fn lemma_has_added_monotone_local(
    a: Seq<StreamEventV>,
    b: Seq<StreamEventV>,
    name: Seq<char>,
)
    requires
        has_added_with_name(a, name),
    ensures
        has_added_with_name(a + b, name),
{
    crate::accumulator::lemma_has_added_monotone(a, b, name);
}

proof fn lemma_anth_run_announced(
    st: AnthStateV,
    evs: Seq<AnthropicStreamEventV>,
    base: Seq<StreamEventV>,
)
    requires
        calls_announced_in(st.calls, base),
    ensures
        forall|j: int|
            0 <= j < anth_run_events(st, evs).len() ==> (((#[trigger] anth_run_events(
                st,
                evs,
            )[j]) is FunctionCallComplete) ==> has_added_with_name(
                base + anth_run_events(st, evs).take(j),
                anth_run_events(st, evs)[j]->FunctionCallComplete_call.name,
            )),
    decreases evs.len(),
{
    if evs.len() > 0 {
        let out0 = anth_step_events(st, evs[0]);
        let st1 = anth_step_state(st, evs[0]);
        let rest = anth_run_events(st1, evs.drop_first());
        let run = anth_run_events(st, evs);
        assert(run == out0 + rest);
        lemma_anth_step_announced(st, evs[0], base);
        lemma_anth_run_announced(st1, evs.drop_first(), base + out0);
        assert forall|j: int|
            0 <= j < run.len() && ((#[trigger] run[j]) is FunctionCallComplete) implies
            has_added_with_name(
                base + run.take(j),
                run[j]->FunctionCallComplete_call.name,
            ) by {
            if j < out0.len() {
                assert(run[j] == out0[j]);
                assert(run.take(j) =~= out0.take(j));
                assert(has_added_with_name(
                    base + out0.take(j),
                    out0[j]->FunctionCallComplete_call.name,
                ));
            } else {
                assert(run[j] == rest[j - out0.len()]);
                assert((base + out0) + rest.take(j - out0.len()) =~= base + run.take(j));
                assert(has_added_with_name(
                    (base + out0) + rest.take(j - out0.len()),
                    rest[j - out0.len()]->FunctionCallComplete_call.name,
                ));
            }
        }
    }
}

/// Every function-call completion a fresh Anthropic normalizer emits
/// was announced earlier in its own canonical stream, with the same
/// name: the premise the accumulator's announcement law asks for.
pub proof fn lemma_anthropic_announced(evs: Seq<AnthropicStreamEventV>)
    ensures
        announced(anth_run_events(anth_init(), evs)),
{
    let run = anth_run_events(anth_init(), evs);
    lemma_anth_run_announced(anth_init(), evs, Seq::empty());
    assert forall|i: int|
        0 <= i < run.len() && ((#[trigger] run[i]) is FunctionCallComplete) implies
        has_added_with_name(run.take(i), run[i]->FunctionCallComplete_call.name) by {
        assert(Seq::<StreamEventV>::empty() + run.take(i) =~= run.take(i));
    }
}

/// End to end: every function-call item of a response buffered from a
/// fresh Anthropic stream was announced in that stream, with its name,
/// before it completed.
pub proof fn lemma_anthropic_buffered_calls_announced(
    evs: Seq<AnthropicStreamEventV>,
    resp: crate::response::CompleteResponseV,
)
    requires
        crate::accumulator::buffer_outcome(anth_run_events(anth_init(), evs)) == Ok::<
            crate::response::CompleteResponseV,
            Seq<char>,
        >(resp),
    ensures
        forall|k: int|
            0 <= k < resp.output.len() ==> ((#[trigger] resp.output[k]) is FunctionCall
                ==> has_added_with_name(
                anth_run_events(anth_init(), evs),
                resp.output[k]->FunctionCall_call.name,
            )),
{
    lemma_anthropic_announced(evs);
    crate::accumulator::lemma_buffered_calls_were_announced(
        anth_run_events(anth_init(), evs),
        resp,
    );
}

// --- Incremental argument assembly ---

/// The concatenation of a list of texts, in order.
pub open spec fn concat_texts(ss: Seq<Seq<char>>) -> Seq<char>
    decreases ss.len(),
{
    if ss.len() == 0 {
        Seq::empty()
    } else {
        ss[0] + concat_texts(ss.drop_first())
    }
}

/// The JSON-delta events for a list of partial texts at one block
/// index.
pub open spec fn json_delta_events(index: u32, parts: Seq<Seq<char>>) -> Seq<
    AnthropicStreamEventV,
>
    decreases parts.len(),
{
    if parts.len() == 0 {
        Seq::empty()
    } else {
        seq![
            AnthropicStreamEventV::ContentBlockDelta {
                index,
                delta: AnthropicContentDeltaV::InputJsonDelta { partial_json: parts[0] },
            },
        ] + json_delta_events(index, parts.drop_first())
    }
}

proof fn lemma_json_deltas_append(st: AnthStateV, index: u32, parts: Seq<Seq<char>>)
    requires
        ({
            let pos = find_call(st.calls, index);
            &&& pos < st.calls.len()
            &&& !st.calls[pos].has_initial_input
        }),
    ensures
        ({
            let pos = find_call(st.calls, index);
            let fin = anth_run_state(st, json_delta_events(index, parts));
            &&& anth_run_events(st, json_delta_events(index, parts)) =~= Seq::<
                StreamEventV,
            >::empty()
            &&& fin.calls =~= st.calls.update(
                pos,
                InProgressCallV {
                    input_buffer: st.calls[pos].input_buffer + concat_texts(parts),
                    ..st.calls[pos]
                },
            )
            &&& fin.finish == st.finish
            &&& fin.usage == st.usage
        }),
    decreases parts.len(),
{
    let pos = find_call(st.calls, index);
    lemma_find_call_in_range(st.calls, index);
    if parts.len() == 0 {
        assert(st.calls.update(
            pos,
            InProgressCallV {
                input_buffer: st.calls[pos].input_buffer + concat_texts(parts),
                ..st.calls[pos]
            },
        ) =~= st.calls) by {
            assert(st.calls[pos].input_buffer + Seq::<char>::empty() =~= st.calls[
                pos
            ].input_buffer);
        }
    } else {
        let ev0 = json_delta_events(index, parts)[0];
        let st1 = anth_step_state(st, ev0);
        assert(anth_step_events(st, ev0) =~= Seq::<StreamEventV>::empty());
        assert(st1.calls == st.calls.update(
            pos,
            InProgressCallV { input_buffer: st.calls[pos].input_buffer + parts[0], ..st.calls[pos] },
        ));
        assert(find_call(st1.calls, index) == pos) by {
            lemma_find_call_stable(st.calls, st1.calls, index);
        }
        assert(json_delta_events(index, parts).drop_first() =~= json_delta_events(
            index,
            parts.drop_first(),
        ));
        lemma_json_deltas_append(st1, index, parts.drop_first());
        assert(st.calls[pos].input_buffer + parts[0] + concat_texts(parts.drop_first()) =~= st.calls[
            pos
        ].input_buffer + concat_texts(parts));
        assert(st1.calls.update(
            pos,
            InProgressCallV {
                input_buffer: st1.calls[pos].input_buffer + concat_texts(parts.drop_first()),
                ..st1.calls[pos]
            },
        ) =~= st.calls.update(
            pos,
            InProgressCallV {
                input_buffer: st.calls[pos].input_buffer + concat_texts(parts),
                ..st.calls[pos]
            },
        ));
    }
}

/// Updating an entry in place does not move where an index is found.
proof fn lemma_find_call_stable(
    a: Seq<InProgressCallV>,
    b: Seq<InProgressCallV>,
    index: u32,
)
    requires
        a.len() == b.len(),
        forall|k: int| 0 <= k < a.len() ==> (#[trigger] b[k]).index == a[k].index,
    ensures
        find_call(b, index) == find_call(a, index),
    decreases a.len(),
{
    if a.len() > 0 {
        assert(b[0].index == a[0].index);
        if a[0].index != index {
            assert forall|k: int| 0 <= k < a.drop_first().len() implies (#[trigger] b.drop_first()[
                k
            ]).index == a.drop_first()[k].index by {
                assert(b[k + 1].index == a[k + 1].index);
            }
            lemma_find_call_stable(a.drop_first(), b.drop_first(), index);
        }
    }
}

/// An Anthropic tool call whose initial input is empty and whose
/// arguments arrive through any number of JSON deltas completes with
/// arguments equal to the concatenation of the deltas, byte for byte:
/// starting a tool-use block with empty input, feeding the deltas, and
/// stopping the block yields exactly the announcement and one
/// completion whose arguments are that concatenation.
pub proof fn lemma_anthropic_incremental_arguments(
    index: u32,
    id: Seq<char>,
    name: Seq<char>,
    parts: Seq<Seq<char>>,
)
    ensures
        ({
            let evs = seq![
                AnthropicStreamEventV::ContentBlockStart {
                    index,
                    content_block: AnthropicContentBlockV::ToolUse {
                        id,
                        name,
                        input: "{}"@,
                    },
                },
            ] + json_delta_events(index, parts) + seq![
                AnthropicStreamEventV::ContentBlockStop { index },
            ];
            anth_run_events(anth_init(), evs) =~= seq![
                StreamEventV::OutputItemAdded {
                    item: OutputItemInfoV::FunctionCall { name, id },
                },
                StreamEventV::FunctionCallComplete {
                    call: FunctionCallV {
                        id,
                        call_id: id,
                        name,
                        arguments: concat_texts(parts),
                    },
                },
            ]
        }),
{
    let start = AnthropicStreamEventV::ContentBlockStart {
        index,
        content_block: AnthropicContentBlockV::ToolUse { id, name, input: "{}"@ },
    };
    let stop = AnthropicStreamEventV::ContentBlockStop { index };
    let evs = seq![start] + json_delta_events(index, parts) + seq![stop];
    let st0 = anth_init();
    assert(empty_input("{}"@));
    let st1 = anth_step_state(st0, start);
    let entry = InProgressCallV {
        index,
        id,
        name,
        input_buffer: Seq::empty(),
        has_initial_input: false,
    };
    assert(find_call(st0.calls, index) == 0);
    assert(st1.calls =~= seq![entry]);
    assert(anth_step_events(st0, start) =~= seq![
        StreamEventV::OutputItemAdded { item: OutputItemInfoV::FunctionCall { name, id } },
    ]);
    assert(find_call(st1.calls, index) == 0);
    lemma_json_deltas_append(st1, index, parts);
    let st2 = anth_run_state(st1, json_delta_events(index, parts));
    assert(st2.calls =~= seq![
        InProgressCallV {
            index,
            id,
            name,
            input_buffer: concat_texts(parts),
            has_initial_input: false,
        },
    ]) by {
        assert(Seq::<char>::empty() + concat_texts(parts) =~= concat_texts(parts));
        assert(st2.calls =~= st1.calls.update(
            0,
            InProgressCallV {
                input_buffer: st1.calls[0].input_buffer + concat_texts(parts),
                ..st1.calls[0]
            },
        ));
    }
    assert(find_call(st2.calls, index) == 0);
    assert(anth_step_events(st2, stop) =~= seq![
        StreamEventV::FunctionCallComplete {
            call: FunctionCallV { id, call_id: id, name, arguments: concat_texts(parts) },
        },
    ]);
    // Stitch the three segments of the run together.
    lemma_anth_run_compose(st0, seq![start], json_delta_events(index, parts) + seq![stop]);
    lemma_anth_run_compose(st1, json_delta_events(index, parts), seq![stop]);
    assert(seq![start] + (json_delta_events(index, parts) + seq![stop]) =~= evs);
    lemma_anth_run_single(st0, start);
    lemma_anth_run_single(st2, stop);
    assert(anth_run_events(st0, evs) =~= anth_step_events(st0, start) + Seq::<
        StreamEventV,
    >::empty() + anth_step_events(st2, stop));
}

/// Running a single event is stepping it once.
proof fn lemma_anth_run_single(st: AnthStateV, ev: AnthropicStreamEventV)
    ensures
        anth_run_state(st, seq![ev]) == anth_step_state(st, ev),
        anth_run_events(st, seq![ev]) =~= anth_step_events(st, ev),
{
    let s = seq![ev];
    let st1 = anth_step_state(st, ev);
    assert(s.len() == 1 && s[0] == ev);
    assert(s.drop_first() =~= Seq::<AnthropicStreamEventV>::empty());
    assert(anth_run_state(st1, Seq::<AnthropicStreamEventV>::empty()) == st1);
    assert(anth_run_events(st1, Seq::<AnthropicStreamEventV>::empty()) =~= Seq::<
        StreamEventV,
    >::empty());
    assert(anth_step_events(st, ev) + Seq::<StreamEventV>::empty() =~= anth_step_events(st, ev));
}

// --- Outgoing history encoding ---

/// Message content on the wire: plain text, or a list of blocks once a
/// tool interaction is attached.
#[derive(Debug, Clone)]
pub enum AnthropicContent {
    Text(String),
    Blocks(Vec<AnthropicContentBlock>),
}

/// Abstract value of message content.
pub enum AnthropicContentV {
    Text(Seq<char>),
    Blocks(Seq<AnthropicContentBlockV>),
}

impl View for AnthropicContent {
    type V = AnthropicContentV;

    open spec fn view(&self) -> AnthropicContentV {
        match self {
            AnthropicContent::Text(s) => AnthropicContentV::Text(s@),
            AnthropicContent::Blocks(bs) => AnthropicContentV::Blocks(bs.deep_view()),
        }
    }
}

/// One wire message.
#[derive(Debug, Clone)]
pub struct AnthropicMessage {
    pub role: String,
    pub content: AnthropicContent,
}

/// Abstract value of a wire message.
pub struct AnthropicMessageV {
    pub role: Seq<char>,
    pub content: AnthropicContentV,
}

impl View for AnthropicMessage {
    type V = AnthropicMessageV;

    open spec fn view(&self) -> AnthropicMessageV {
        AnthropicMessageV { role: self.role@, content: self.content@ }
    }
}

impl DeepView for AnthropicMessage {
    type V = AnthropicMessageV;

    open spec fn deep_view(&self) -> AnthropicMessageV {
        self@
    }
}

/// A tool offered to the model; the schema travels as JSON text.
#[derive(Debug, Clone)]
pub struct AnthropicTool {
    pub name: String,
    pub description: String,
    pub input_schema: String,
}

/// Abstract value of a wire tool.
pub struct AnthropicToolV {
    pub name: Seq<char>,
    pub description: Seq<char>,
    pub input_schema: Seq<char>,
}

impl View for AnthropicTool {
    type V = AnthropicToolV;

    open spec fn view(&self) -> AnthropicToolV {
        AnthropicToolV {
            name: self.name@,
            description: self.description@,
            input_schema: self.input_schema@,
        }
    }
}

impl DeepView for AnthropicTool {
    type V = AnthropicToolV;

    open spec fn deep_view(&self) -> AnthropicToolV {
        self@
    }
}

/// A whole request body in the Anthropic-on-Vertex wire shape.
/// `temperature` and `top_p` are in thousandths, as in `LLMRequest`.
#[derive(Debug, Clone)]
pub struct AnthropicRequest {
    pub messages: Vec<AnthropicMessage>,
    pub max_tokens: u32,
    pub anthropic_version: String,
    pub system: Option<String>,
    pub temperature: Option<u32>,
    pub top_p: Option<u32>,
    pub tools: Option<Vec<AnthropicTool>>,
    pub stream: Option<bool>,
}

/// Whether a block list already holds a tool result.
pub open spec fn has_tool_result(bs: Seq<AnthropicContentBlockV>) -> bool {
    exists|i: int| 0 <= i < bs.len() && (#[trigger] bs[i]) is ToolResult
}

/// The system text and message list that a history encodes to. System
/// turns become the top-level system text (the last one wins); user and
/// assistant turns map one to one; a function call becomes a `tool_use`
/// block on the latest assistant message (promoting its text to blocks,
/// or opening a new assistant message); a function output becomes a
/// `tool_result` block coalesced onto the latest user message that
/// already holds tool results, else a new user message.
pub open spec fn anth_encode(items: Seq<InputItemV>) -> (Option<Seq<char>>, Seq<AnthropicMessageV>)
    decreases items.len(),
{
    if items.len() == 0 {
        (None, Seq::empty())
    } else {
        let (sys, msgs) = anth_encode(items.drop_last());
        match items.last() {
            InputItemV::Message(m) => {
                if m.role == Role::System {
                    (Some(m.content), msgs)
                } else {
                    let role = if m.role == Role::User {
                        "user"@
                    } else {
                        "assistant"@
                    };
                    (
                        sys,
                        msgs.push(
                            AnthropicMessageV { role, content: AnthropicContentV::Text(m.content) },
                        ),
                    )
                }
            },
            InputItemV::FunctionCall(c) => {
                let blk = AnthropicContentBlockV::ToolUse {
                    id: c.call_id,
                    name: c.name,
                    input: c.arguments,
                };
                if msgs.len() > 0 && msgs.last().role == "assistant"@ {
                    let updated = match msgs.last().content {
                        AnthropicContentV::Text(t) => AnthropicMessageV {
                            role: "assistant"@,
                            content: AnthropicContentV::Blocks(
                                seq![AnthropicContentBlockV::Text { text: t }, blk],
                            ),
                        },
                        AnthropicContentV::Blocks(bs) => AnthropicMessageV {
                            role: "assistant"@,
                            content: AnthropicContentV::Blocks(bs.push(blk)),
                        },
                    };
                    (sys, msgs.update(msgs.len() - 1, updated))
                } else {
                    (
                        sys,
                        msgs.push(
                            AnthropicMessageV {
                                role: "assistant"@,
                                content: AnthropicContentV::Blocks(seq![blk]),
                            },
                        ),
                    )
                }
            },
            InputItemV::FunctionCallOutput { call_id, output } => {
                let blk = AnthropicContentBlockV::ToolResult {
                    tool_use_id: call_id,
                    content: output,
                };
                if msgs.len() > 0 && msgs.last().role == "user"@ && (
                msgs.last().content matches AnthropicContentV::Blocks(bs) && has_tool_result(bs)) {
                    let updated = AnthropicMessageV {
                        role: "user"@,
                        content: AnthropicContentV::Blocks(
                            msgs.last().content->Blocks_0.push(blk),
                        ),
                    };
                    (sys, msgs.update(msgs.len() - 1, updated))
                } else {
                    (
                        sys,
                        msgs.push(
                            AnthropicMessageV {
                                role: "user"@,
                                content: AnthropicContentV::Blocks(seq![blk]),
                            },
                        ),
                    )
                }
            },
        }
    }
}

/// Whether some function-call item of `items` carries arguments that
/// are not one JSON value.
pub open spec fn some_bad_arguments(items: Seq<InputItemV>) -> bool {
    exists|i: int|
        0 <= i < items.len() && ((#[trigger] items[i]) matches InputItemV::FunctionCall(c)
            && !crate::strutil::json_ok(c.arguments))
}

/// Whether a block list already holds a tool result, decided by one
/// pass.
fn has_tool_result_exec(bs: &Vec<AnthropicContentBlock>) -> (r: bool)
    ensures
        r == has_tool_result(bs.deep_view()),
{
    let n = bs.len();
    for i in 0..n
        invariant
            n == bs@.len(),
            !has_tool_result(bs.deep_view().take(i as int)),
    {
        match &bs[i] {
            AnthropicContentBlock::ToolResult { .. } => {
                assert(bs.deep_view()[i as int] is ToolResult);
                return true;
            },
            _ => {},
        }
        assert forall|j: int| 0 <= j < i + 1 implies !((#[trigger] bs.deep_view().take(
            i + 1,
        )[j]) is ToolResult) by {
            if j < i {
                assert(!(bs.deep_view().take(i as int)[j] is ToolResult));
            }
        }
    }
    assert(bs.deep_view().take(n as int) =~= bs.deep_view());
    false
}

/// Convert an `LLMRequest` to the Anthropic-on-Vertex wire shape.
/// Fails exactly when a function-call item carries arguments that are
/// not one JSON value; otherwise the body holds the encoded history,
/// the version constant, streaming switched on, `max_tokens` defaulted
/// to 1024, and the knobs and tools passed through.
pub fn convert_request(request: &LLMRequest) -> (r: Result<AnthropicRequest, Error>)
    ensures
        (match r {
            Ok(body) => {
                &&& !some_bad_arguments(request@.messages)
                &&& body.messages.deep_view() == anth_encode(request@.messages).1
                &&& (match (anth_encode(request@.messages).0, body.system) {
                    (Some(sc), Some(ref ss)) => ss@ == sc,
                    (None, None) => true,
                    _ => false,
                })
                &&& body.max_tokens == (match request@.max_tokens {
                    Some(m) => m,
                    None => 1024u32,
                })
                &&& body.anthropic_version@ == "vertex-2023-10-16"@
                &&& body.temperature == request@.temperature
                &&& body.top_p == request@.top_p
                &&& (match (request@.tools, body.tools) {
                    (Some(ts), Some(ref ws)) => ws.deep_view() == ts.map_values(
                        |t: crate::types::ToolV| anth_tool_of(t),
                    ),
                    (None, None) => true,
                    _ => false,
                })
                &&& body.stream == Some(true)
            },
            Err(e) => some_bad_arguments(request@.messages) && (e@ matches ErrorV::Provider {
                provider,
                ..
            } && provider == "Anthropic"@),
        }),
{
    let ghost itemsg = request@.messages;
    let mut messages: Vec<AnthropicMessage> = Vec::new();
    let mut system: Option<String> = None;
    let n = request.messages.len();
    let mut i: usize = 0;
    proof {
        assert(itemsg.take(0) =~= Seq::<InputItemV>::empty());
        assert(messages.deep_view() =~= anth_encode(itemsg.take(0)).1);
    }
    while i < n
        invariant
            0 <= i <= n,
            n == request.messages@.len(),
            itemsg == request@.messages,
            !some_bad_arguments(itemsg.take(i as int)),
            messages.deep_view() == anth_encode(itemsg.take(i as int)).1,
            (match (anth_encode(itemsg.take(i as int)).0, system) {
                (Some(sc), Some(ref ss)) => ss@ == sc,
                (None, None) => true,
                _ => false,
            }),
        decreases n - i,
    {
        let ghost prefix = itemsg.take(i as int);
        let ghost prev = messages.deep_view();
        proof {
            assert(itemsg.take(i + 1).drop_last() =~= prefix);
            assert(itemsg.take(i + 1).last() == itemsg[i as int]);
        }
        match &request.messages[i] {
            InputItem::Message(msg) => {
                match msg.role {
                    Role::System => {
                        system = Some(msg.content.clone());
                    },
                    Role::User => {
                        messages.push(AnthropicMessage {
                            role: String::from_str("user"),
                            content: AnthropicContent::Text(msg.content.clone()),
                        });
                        proof {
                            assert(messages.deep_view() =~= anth_encode(itemsg.take(i + 1)).1);
                        }
                    },
                    Role::Assistant => {
                        messages.push(AnthropicMessage {
                            role: String::from_str("assistant"),
                            content: AnthropicContent::Text(msg.content.clone()),
                        });
                        proof {
                            assert(messages.deep_view() =~= anth_encode(itemsg.take(i + 1)).1);
                        }
                    },
                }
            },
            InputItem::FunctionCall(call) => {
                if !crate::strutil::json_value_ok(call.arguments.as_str()) {
                    proof {
                        assert(itemsg[i as int] matches InputItemV::FunctionCall(c)
                            && !crate::strutil::json_ok(c.arguments));
                    }
                    return Err(Error::provider("Anthropic", "invalid function arguments"));
                }
                let blk = AnthropicContentBlock::ToolUse {
                    id: call.call_id.clone(),
                    name: call.name.clone(),
                    input: call.arguments.clone(),
                };
                let ghost blkv = blk@;
                let m = messages.len();
                let mut appended = false;
                if m > 0 {
                    if str_eq(messages[m - 1].role.as_str(), "assistant") {
                        appended = true;
                        let ghost lastv = prev.last();
                        let last = messages.pop().unwrap();
                        let new_content = match last.content {
                            AnthropicContent::Text(t) => {
                                let ghost tv = t@;
                                let mut bs: Vec<AnthropicContentBlock> = Vec::new();
                                bs.push(AnthropicContentBlock::Text { text: t });
                                bs.push(blk);
                                proof {
                                    assert(bs.deep_view() =~= seq![
                                        AnthropicContentBlockV::Text { text: tv },
                                        blkv,
                                    ]);
                                }
                                AnthropicContent::Blocks(bs)
                            },
                            AnthropicContent::Blocks(mut bs) => {
                                let ghost bsv = bs.deep_view();
                                bs.push(blk);
                                proof {
                                    assert(bs.deep_view() =~= bsv.push(blkv));
                                }
                                AnthropicContent::Blocks(bs)
                            },
                        };
                        let ghost ncv = new_content@;
                        messages.push(AnthropicMessage {
                            role: String::from_str("assistant"),
                            content: new_content,
                        });
                        proof {
                            let updated = AnthropicMessageV { role: "assistant"@, content: ncv };
                            assert(messages.deep_view() =~= prev.update(m - 1, updated));
                            assert(anth_encode(itemsg.take(i + 1)).1 =~= prev.update(
                                m - 1,
                                updated,
                            ));
                        }
                    }
                }
                if !appended {
                    let blk2 = AnthropicContentBlock::ToolUse {
                        id: call.call_id.clone(),
                        name: call.name.clone(),
                        input: call.arguments.clone(),
                    };
                    let mut bs: Vec<AnthropicContentBlock> = Vec::new();
                    bs.push(blk2);
                    messages.push(AnthropicMessage {
                        role: String::from_str("assistant"),
                        content: AnthropicContent::Blocks(bs),
                    });
                    proof {
                        assert(messages.deep_view()[m as int].content->Blocks_0 =~= seq![blkv]);
                        assert(messages.deep_view() =~= anth_encode(itemsg.take(i + 1)).1);
                    }
                }
            },
            InputItem::FunctionCallOutput { call_id, output } => {
                let blk = AnthropicContentBlock::ToolResult {
                    tool_use_id: call_id.clone(),
                    content: output.clone(),
                };
                let ghost blkv = blk@;
                let m = messages.len();
                let mut coalesced = false;
                if m > 0 {
                    let mut is_user_with_results = false;
                    if str_eq(messages[m - 1].role.as_str(), "user") {
                        match &messages[m - 1].content {
                            AnthropicContent::Blocks(bs) => {
                                is_user_with_results = has_tool_result_exec(bs);
                            },
                            _ => {},
                        }
                    }
                    if is_user_with_results {
                        coalesced = true;
                        let ghost lastv = prev.last();
                        let last = messages.pop().unwrap();
                        match last.content {
                            AnthropicContent::Blocks(mut bs) => {
                                let ghost bsv = bs.deep_view();
                                bs.push(blk);
                                proof {
                                    assert(bs.deep_view() =~= bsv.push(blkv));
                                }
                                let ghost ncv = AnthropicContentV::Blocks(bsv.push(blkv));
                                messages.push(AnthropicMessage {
                                    role: String::from_str("user"),
                                    content: AnthropicContent::Blocks(bs),
                                });
                                proof {
                                    let updated = AnthropicMessageV {
                                        role: "user"@,
                                        content: ncv,
                                    };
                                    assert(messages.deep_view() =~= prev.update(m - 1, updated));
                                    assert(anth_encode(itemsg.take(i + 1)).1 =~= prev.update(
                                        m - 1,
                                        updated,
                                    ));
                                }
                            },
                            other => {
                                proof {
                                    assert(false);
                                }
                                messages.push(AnthropicMessage {
                                    role: String::from_str("user"),
                                    content: other,
                                });
                            },
                        }
                    }
                }
                if !coalesced {
                    let blk2 = AnthropicContentBlock::ToolResult {
                        tool_use_id: call_id.clone(),
                        content: output.clone(),
                    };
                    let mut bs: Vec<AnthropicContentBlock> = Vec::new();
                    bs.push(blk2);
                    messages.push(AnthropicMessage {
                        role: String::from_str("user"),
                        content: AnthropicContent::Blocks(bs),
                    });
                    proof {
                        assert(messages.deep_view()[m as int].content->Blocks_0 =~= seq![blkv]);
                        assert(messages.deep_view() =~= anth_encode(itemsg.take(i + 1)).1);
                    }
                }
            },
        }
        proof {
            assert forall|k: int|
                0 <= k < i + 1 && ((#[trigger] itemsg.take(i + 1)[k]) is FunctionCall) implies
                crate::strutil::json_ok(itemsg.take(i + 1)[k]->FunctionCall_0.arguments) by {
                if k < i {
                    assert(itemsg.take(i as int)[k] == itemsg.take(i + 1)[k]);
                    assert(!some_bad_arguments(itemsg.take(i as int)));
                }
            }
            assert(!some_bad_arguments(itemsg.take(i + 1)));
        }
        i = i + 1;
    }
    proof {
        assert(itemsg.take(n as int) =~= itemsg);
    }
    let tools = match &request.tools {
        Some(ts) => Some(convert_tools(ts)),
        None => None,
    };
    let max_tokens = match request.max_tokens {
        Some(m) => m,
        None => 1024,
    };
    Ok(
        AnthropicRequest {
            messages,
            max_tokens,
            anthropic_version: String::from_str("vertex-2023-10-16"),
            system,
            temperature: request.temperature,
            top_p: request.top_p,
            tools,
            stream: Some(true),
        },
    )
}

/// The wire shape of one offered tool.
pub open spec fn anth_tool_of(t: crate::types::ToolV) -> AnthropicToolV {
    AnthropicToolV {
        name: t.function.name,
        description: t.function.description,
        input_schema: t.function.parameters,
    }
}

/// Convert the offered tools to the Anthropic wire shape.
pub fn convert_tools(tools: &Vec<Tool>) -> (r: Vec<AnthropicTool>)
    ensures
        r.deep_view() == tools.deep_view().map_values(|t: crate::types::ToolV| anth_tool_of(t)),
{
    let mut r: Vec<AnthropicTool> = Vec::new();
    let n = tools.len();
    for i in 0..n
        invariant
            n == tools@.len(),
            r.deep_view() =~= tools.deep_view().take(i as int).map_values(
                |t: crate::types::ToolV| anth_tool_of(t),
            ),
    {
        let t = &tools[i];
        let ghost prev = r.deep_view();
        r.push(AnthropicTool {
            name: t.function.name.clone(),
            description: t.function.description.clone(),
            input_schema: t.function.parameters.clone(),
        });
        proof {
            assert(r.deep_view() =~= prev.push(anth_tool_of(tools.deep_view()[i as int])));
            assert(r.deep_view() =~= tools.deep_view().take(i + 1).map_values(
                |t: crate::types::ToolV| anth_tool_of(t),
            ));
        }
    }
    proof {
        assert(tools.deep_view().take(n as int) =~= tools.deep_view());
    }
    r
}

/// The Vertex endpoint for an Anthropic model: the regional host, the
/// project and location path, and the streaming method with SSE framing.
pub fn get_endpoint(project_id: &str, location: &str, model: &str) -> (r: String)
    ensures
        r@ == "https://"@ + location@ + "-aiplatform.googleapis.com/v1/projects/"@ + project_id@
            + "/locations/"@ + location@ + "/publishers/anthropic/models/"@ + model@
            + ":streamRawPredict?alt=sse"@,
{
    let mut r = String::from_str("https://");
    r.append(location);
    r.append("-aiplatform.googleapis.com/v1/projects/");
    r.append(project_id);
    r.append("/locations/");
    r.append(location);
    r.append("/publishers/anthropic/models/");
    r.append(model);
    r.append(":streamRawPredict?alt=sse");
    r
}

/// Gluing one more read-back item onto the previous round trip.
proof fn lemma_round_trip_glue(
    items: Seq<InputItemV>,
    sys_items: Seq<InputItemV>,
    prev: Seq<InputItemV>,
    x: InputItemV,
)
    requires
        items.len() > 0,
        scrub_items(items.drop_last()) == sys_items + prev,
        scrub_item(items.last()) == x,
    ensures
        sys_items + (prev + seq![x]) =~= scrub_items(items),
        sys_items + (prev.push(x)) =~= scrub_items(items),
{
    let lhs = sys_items + (prev + seq![x]);
    assert(scrub_items(items).len() == items.len());
    assert(scrub_items(items.drop_last()).len() == items.len() - 1);
    assert(lhs.len() == items.len());
    assert forall|i: int| 0 <= i < items.len() implies #[trigger] lhs[i] == scrub_items(
        items,
    )[i] by {
        assert(scrub_items(items)[i] == scrub_item(items[i]));
        if i < items.len() - 1 {
            assert(items.drop_last()[i] == items[i]);
            assert(scrub_items(items.drop_last())[i] == scrub_item(items[i]));
            assert(lhs[i] == (sys_items + prev)[i]);
        } else {
            assert(lhs[i] == x);
        }
    }
    assert(lhs =~= scrub_items(items));
    assert(sys_items + (prev.push(x)) =~= lhs);
}

// --- Round trip ---

/// Reading one content block back as an input item, under the role of
/// its message: text is a message, a tool use (only in assistant
/// messages) is a function call with the wire's one id as the call id,
/// and a tool result (only in user messages) is a function output.
pub open spec fn anth_block_back(role: Seq<char>, b: AnthropicContentBlockV) -> Option<
    InputItemV,
> {
    match b {
        AnthropicContentBlockV::Text { text } => {
            if role == "user"@ {
                Some(InputItemV::Message(MessageV { role: Role::User, content: text }))
            } else {
                Some(InputItemV::Message(MessageV { role: Role::Assistant, content: text }))
            }
        },
        AnthropicContentBlockV::ToolUse { id, name, input } => {
            if role == "assistant"@ {
                Some(
                    InputItemV::FunctionCall(
                        FunctionCallV { id: Seq::empty(), call_id: id, name, arguments: input },
                    ),
                )
            } else {
                None
            }
        },
        AnthropicContentBlockV::ToolResult { tool_use_id, content } => {
            if role == "user"@ {
                Some(InputItemV::FunctionCallOutput { call_id: tool_use_id, output: content })
            } else {
                None
            }
        },
    }
}

/// Reading a block list back, in order; any unreadable block makes the
/// message unreadable.
pub open spec fn anth_blocks_back(role: Seq<char>, bs: Seq<AnthropicContentBlockV>) -> Option<
    Seq<InputItemV>,
>
    decreases bs.len(),
{
    if bs.len() == 0 {
        Some(Seq::empty())
    } else {
        match (anth_blocks_back(role, bs.drop_last()), anth_block_back(role, bs.last())) {
            (Some(init), Some(x)) => Some(init.push(x)),
            _ => None,
        }
    }
}

/// Reading one wire message back as input items.
pub open spec fn anth_msg_back(m: AnthropicMessageV) -> Option<Seq<InputItemV>> {
    if m.role == "user"@ || m.role == "assistant"@ {
        match m.content {
            AnthropicContentV::Text(t) => {
                Some(
                    seq![
                        InputItemV::Message(
                            MessageV {
                                role: if m.role == "user"@ {
                                    Role::User
                                } else {
                                    Role::Assistant
                                },
                                content: t,
                            },
                        ),
                    ],
                )
            },
            AnthropicContentV::Blocks(bs) => anth_blocks_back(m.role, bs),
        }
    } else {
        None
    }
}

/// Reading a whole message list back, in order.
pub open spec fn anth_msgs_back(msgs: Seq<AnthropicMessageV>) -> Option<Seq<InputItemV>>
    decreases msgs.len(),
{
    if msgs.len() == 0 {
        Some(Seq::empty())
    } else {
        match (anth_msgs_back(msgs.drop_last()), anth_msg_back(msgs.last())) {
            (Some(init), Some(tail)) => Some(init + tail),
            _ => None,
        }
    }
}

/// Reading a whole encoded body back: the system text first, then the
/// messages in order.
pub open spec fn anth_body_back(
    sys: Option<Seq<char>>,
    msgs: Seq<AnthropicMessageV>,
) -> Option<Seq<InputItemV>> {
    match anth_msgs_back(msgs) {
        Some(items) => Some(
            (match sys {
                Some(s) => seq![
                    InputItemV::Message(MessageV { role: Role::System, content: s }),
                ],
                None => Seq::empty(),
            }) + items,
        ),
        None => None,
    }
}

/// Encoding a history into the Anthropic wire shape and reading it back
/// preserves roles, text, tool-call identity (up to the provider-side
/// item id, which the wire does not carry) and tool-result pairing —
/// for any history whose one system turn, if any, comes first.
pub proof fn lemma_anthropic_round_trip(items: Seq<InputItemV>)
    requires
        system_only_first(items),
    ensures
        anth_body_back(anth_encode(items).0, anth_encode(items).1) == Some(scrub_items(items)),
    decreases items.len(),
{
    crate::openai::lemma_role_names_distinct();
    let (sys, msgs) = anth_encode(items);
    if items.len() == 0 {
        assert(anth_msgs_back(msgs) == Some(Seq::<InputItemV>::empty()));
        assert(scrub_items(items) =~= Seq::<InputItemV>::empty());
        assert(anth_body_back(sys, msgs) == Some(Seq::<InputItemV>::empty() + Seq::<
            InputItemV,
        >::empty()));
        assert(Seq::<InputItemV>::empty() + Seq::<InputItemV>::empty() =~= Seq::<
            InputItemV,
        >::empty());
    } else {
        let rest = items.drop_last();
        assert(system_only_first(rest)) by {
            assert forall|i: int|
                0 < i < rest.len() implies !((#[trigger] rest[i]) matches InputItemV::Message(m)
                && m.role == Role::System) by {
                assert(rest[i] == items[i]);
            }
        }
        lemma_anthropic_round_trip(rest);
        let (psys, pmsgs) = anth_encode(rest);
        let prev_back = anth_body_back(psys, pmsgs);
        let prev_items = anth_msgs_back(pmsgs);
        assert(prev_back == Some(scrub_items(rest)));
        assert(prev_items is Some);
        let sys_items = (match psys {
            Some(s) => seq![InputItemV::Message(MessageV { role: Role::System, content: s })],
            None => Seq::<InputItemV>::empty(),
        });
        assert(scrub_items(items).drop_last() =~= scrub_items(rest));
        assert(scrub_items(items).last() == scrub_item(items.last()));
        match items.last() {
            InputItemV::Message(m) => {
                if m.role == Role::System {
                    // The system turn comes first, so nothing else was
                    // encoded yet.
                    assert(items.len() == 1) by {
                        if items.len() > 1 {
                            assert(items[items.len() - 1] matches InputItemV::Message(mm)
                                && mm.role == Role::System);
                        }
                    }
                    assert(rest.len() == 0);
                    assert(pmsgs =~= Seq::<AnthropicMessageV>::empty());
                    assert(msgs == pmsgs);
                    assert(anth_msgs_back(msgs) == Some(Seq::<InputItemV>::empty()));
                    assert(anth_body_back(sys, msgs) == Some(seq![
                        InputItemV::Message(MessageV { role: Role::System, content: m.content }),
                    ] + Seq::<InputItemV>::empty()));
                    assert(seq![
                        InputItemV::Message(MessageV { role: Role::System, content: m.content }),
                    ] + Seq::<InputItemV>::empty() =~= scrub_items(items));
                } else {
                    let role = if m.role == Role::User {
                        "user"@
                    } else {
                        "assistant"@
                    };
                    let newm = AnthropicMessageV {
                        role,
                        content: AnthropicContentV::Text(m.content),
                    };
                    assert(msgs == pmsgs.push(newm));
                    assert(msgs.drop_last() =~= pmsgs);
                    assert(msgs.last() == newm);
                    assert(anth_msg_back(newm) == Some(seq![InputItemV::Message(m)]));
                    assert(anth_body_back(sys, msgs) == Some(sys_items + (prev_items->0 + seq![
                        InputItemV::Message(m),
                    ])));
                    lemma_round_trip_glue(items, sys_items, prev_items->0, InputItemV::Message(m));
                }
            },
            InputItemV::FunctionCall(c) => {
                let blk = AnthropicContentBlockV::ToolUse {
                    id: c.call_id,
                    name: c.name,
                    input: c.arguments,
                };
                let back_item = InputItemV::FunctionCall(
                    FunctionCallV {
                        id: Seq::empty(),
                        call_id: c.call_id,
                        name: c.name,
                        arguments: c.arguments,
                    },
                );
                assert(anth_block_back("assistant"@, blk) == Some(back_item));
                if pmsgs.len() > 0 && pmsgs.last().role == "assistant"@ {
                    let lastm = pmsgs.last();
                    let updated = (match lastm.content {
                        AnthropicContentV::Text(t) => AnthropicMessageV {
                            role: "assistant"@,
                            content: AnthropicContentV::Blocks(
                                seq![AnthropicContentBlockV::Text { text: t }, blk],
                            ),
                        },
                        AnthropicContentV::Blocks(bs) => AnthropicMessageV {
                            role: "assistant"@,
                            content: AnthropicContentV::Blocks(bs.push(blk)),
                        },
                    });
                    assert(msgs == pmsgs.update(pmsgs.len() - 1, updated));
                    assert(msgs.drop_last() =~= pmsgs.drop_last());
                    assert(msgs.last() == updated);
                    // Reading the updated message appends the call.
                    assert(anth_msg_back(updated) == Some(
                        anth_msg_back(lastm)->0.push(back_item),
                    )) by {
                        match lastm.content {
                            AnthropicContentV::Text(t) => {
                                let two = seq![AnthropicContentBlockV::Text { text: t }, blk];
                                assert(two.drop_last() =~= seq![
                                    AnthropicContentBlockV::Text { text: t },
                                ]);
                                assert(two.last() == blk);
                                let one = seq![AnthropicContentBlockV::Text { text: t }];
                                assert(one.drop_last() =~= Seq::<AnthropicContentBlockV>::empty());
                                assert(one.last() == AnthropicContentBlockV::Text { text: t });
                                assert(anth_blocks_back("assistant"@, one) == Some(seq![
                                    InputItemV::Message(
                                        MessageV { role: Role::Assistant, content: t },
                                    ),
                                ])) by {
                                    assert(anth_blocks_back(
                                        "assistant"@,
                                        Seq::<AnthropicContentBlockV>::empty(),
                                    ) == Some(Seq::<InputItemV>::empty()));
                                    assert(Seq::<InputItemV>::empty().push(
                                        InputItemV::Message(
                                            MessageV { role: Role::Assistant, content: t },
                                        ),
                                    ) =~= seq![
                                        InputItemV::Message(
                                            MessageV { role: Role::Assistant, content: t },
                                        ),
                                    ]);
                                }
                            },
                            AnthropicContentV::Blocks(bs) => {
                                assert(bs.push(blk).drop_last() =~= bs);
                                assert(bs.push(blk).last() == blk);
                            },
                        }
                    }
                    assert(prev_items->0 == anth_msgs_back(pmsgs.drop_last())->0 + anth_msg_back(
                        lastm,
                    )->0);
                    assert(anth_msgs_back(msgs) == Some(
                        anth_msgs_back(pmsgs.drop_last())->0 + anth_msg_back(updated)->0,
                    ));
                    assert(anth_msgs_back(pmsgs.drop_last())->0 + (anth_msg_back(lastm)->0.push(
                        back_item,
                    )) =~= prev_items->0 + seq![back_item]);
                    assert(anth_body_back(sys, msgs) == Some(sys_items + (prev_items->0 + seq![
                        back_item,
                    ])));
                    lemma_round_trip_glue(items, sys_items, prev_items->0, back_item);
                } else {
                    let newm = AnthropicMessageV {
                        role: "assistant"@,
                        content: AnthropicContentV::Blocks(seq![blk]),
                    };
                    assert(msgs == pmsgs.push(newm));
                    assert(msgs.drop_last() =~= pmsgs);
                    assert(msgs.last() == newm);
                    assert(anth_msg_back(newm) == Some(seq![back_item])) by {
                        let one = seq![blk];
                        assert(one.drop_last() =~= Seq::<AnthropicContentBlockV>::empty());
                        assert(one.last() == blk);
                        assert(Seq::<InputItemV>::empty().push(back_item) =~= seq![back_item]);
                    }
                    assert(anth_body_back(sys, msgs) == Some(sys_items + (prev_items->0 + seq![
                        back_item,
                    ])));
                    lemma_round_trip_glue(items, sys_items, prev_items->0, back_item);
                }
            },
            InputItemV::FunctionCallOutput { call_id, output } => {
                let blk = AnthropicContentBlockV::ToolResult {
                    tool_use_id: call_id,
                    content: output,
                };
                let back_item = InputItemV::FunctionCallOutput { call_id, output };
                assert(anth_block_back("user"@, blk) == Some(back_item));
                if pmsgs.len() > 0 && pmsgs.last().role == "user"@ && (
                pmsgs.last().content matches AnthropicContentV::Blocks(bs) && has_tool_result(
                    bs,
                )) {
                    let lastm = pmsgs.last();
                    let bs = lastm.content->Blocks_0;
                    let updated = AnthropicMessageV {
                        role: "user"@,
                        content: AnthropicContentV::Blocks(bs.push(blk)),
                    };
                    assert(msgs == pmsgs.update(pmsgs.len() - 1, updated));
                    assert(msgs.drop_last() =~= pmsgs.drop_last());
                    assert(msgs.last() == updated);
                    assert(anth_msg_back(updated) == Some(
                        anth_msg_back(lastm)->0.push(back_item),
                    )) by {
                        assert(bs.push(blk).drop_last() =~= bs);
                        assert(bs.push(blk).last() == blk);
                    }
                    assert(prev_items->0 == anth_msgs_back(pmsgs.drop_last())->0 + anth_msg_back(
                        lastm,
                    )->0);
                    assert(anth_msgs_back(pmsgs.drop_last())->0 + (anth_msg_back(lastm)->0.push(
                        back_item,
                    )) =~= prev_items->0 + seq![back_item]);
                    assert(anth_body_back(sys, msgs) == Some(sys_items + (prev_items->0 + seq![
                        back_item,
                    ])));
                    lemma_round_trip_glue(items, sys_items, prev_items->0, back_item);
                } else {
                    let newm = AnthropicMessageV {
                        role: "user"@,
                        content: AnthropicContentV::Blocks(seq![blk]),
                    };
                    assert(msgs == pmsgs.push(newm));
                    assert(msgs.drop_last() =~= pmsgs);
                    assert(msgs.last() == newm);
                    assert(anth_msg_back(newm) == Some(seq![back_item])) by {
                        let one = seq![blk];
                        assert(one.drop_last() =~= Seq::<AnthropicContentBlockV>::empty());
                        assert(one.last() == blk);
                        assert(anth_blocks_back(
                            "user"@,
                            Seq::<AnthropicContentBlockV>::empty(),
                        ) == Some(Seq::<InputItemV>::empty()));
                        assert(Seq::<InputItemV>::empty().push(back_item) =~= seq![back_item]);
                    }
                    assert(anth_body_back(sys, msgs) == Some(sys_items + (prev_items->0 + seq![
                        back_item,
                    ])));
                    lemma_round_trip_glue(items, sys_items, prev_items->0, back_item);
                }
            },
        }
    }
}

/// Running a concatenation of event lists equals running the pieces one
/// after the other.
pub proof fn lemma_anth_run_compose(
    st: AnthStateV,
    a: Seq<AnthropicStreamEventV>,
    b: Seq<AnthropicStreamEventV>,
)
    ensures
        anth_run_state(st, a + b) == anth_run_state(anth_run_state(st, a), b),
        anth_run_events(st, a + b) =~= anth_run_events(st, a) + anth_run_events(
            anth_run_state(st, a),
            b,
        ),
    decreases a.len(),
{
    if a.len() == 0 {
        assert(a + b =~= b);
    } else {
        assert((a + b)[0] == a[0]);
        assert((a + b).drop_first() =~= a.drop_first() + b);
        lemma_anth_run_compose(anth_step_state(st, a[0]), a.drop_first(), b);
    }
}

} // verus!
