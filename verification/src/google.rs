//! The Gemini-on-Vertex dialect: reading its streamed frames into
//! canonical events, and writing conversation history into its wire
//! shape with positional recovery of function-response names.

use vstd::prelude::*;

use crate::config::LLMRequest;
use crate::error::{Error, ErrorV};
use crate::strutil::str_eq;
use crate::types::{system_only_first, FinishReason, FunctionCall, FunctionCallV, InputItem,
    InputItemV, MessageV, OutputItemInfo, OutputItemInfoV, Role, StreamEvent, StreamEventV, Tool,
    Usage, UsageV};

verus! {

broadcast use vstd::string::group_string_axioms;

// --- Wire parts, shared by frames and request bodies ---

/// One part of a content entry. Function arguments, responses and
/// schemas travel as JSON text.
#[derive(Debug, Clone)]
pub enum GooglePart {
    Text { text: String },
    FunctionCall { name: String, args: String },
    FunctionResponse { name: String, response: String },
}

/// Abstract value of a part.
pub enum GooglePartV {
    Text { text: Seq<char> },
    FunctionCall { name: Seq<char>, args: Seq<char> },
    FunctionResponse { name: Seq<char>, response: Seq<char> },
}

impl View for GooglePart {
    type V = GooglePartV;

    open spec fn view(&self) -> GooglePartV {
        match self {
            GooglePart::Text { text } => GooglePartV::Text { text: text@ },
            GooglePart::FunctionCall { name, args } => GooglePartV::FunctionCall {
                name: name@,
                args: args@,
            },
            GooglePart::FunctionResponse { name, response } => GooglePartV::FunctionResponse {
                name: name@,
                response: response@,
            },
        }
    }
}

impl DeepView for GooglePart {
    type V = GooglePartV;

    open spec fn deep_view(&self) -> GooglePartV {
        self@
    }
}

/// One content entry: a role (`user` or `model`) and its parts.
#[derive(Debug, Clone)]
pub struct GoogleContent {
    pub role: String,
    pub parts: Vec<GooglePart>,
}

/// Abstract value of a content entry.
pub struct GoogleContentV {
    pub role: Seq<char>,
    pub parts: Seq<GooglePartV>,
}

impl View for GoogleContent {
    type V = GoogleContentV;

    open spec fn view(&self) -> GoogleContentV {
        GoogleContentV { role: self.role@, parts: self.parts.deep_view() }
    }
}

impl DeepView for GoogleContent {
    type V = GoogleContentV;

    open spec fn deep_view(&self) -> GoogleContentV {
        self@
    }
}

/// One response candidate.
#[derive(Debug, Clone)]
pub struct GoogleCandidate {
    pub content: GoogleContent,
    pub finish_reason: Option<String>,
}

/// Abstract value of a candidate.
pub struct GoogleCandidateV {
    pub content: GoogleContentV,
    pub finish_reason: Option<Seq<char>>,
}

impl View for GoogleCandidate {
    type V = GoogleCandidateV;

    open spec fn view(&self) -> GoogleCandidateV {
        GoogleCandidateV {
            content: self.content@,
            finish_reason: match self.finish_reason {
                Some(ref s) => Some(s@),
                None => None,
            },
        }
    }
}

impl DeepView for GoogleCandidate {
    type V = GoogleCandidateV;

    open spec fn deep_view(&self) -> GoogleCandidateV {
        self@
    }
}

/// Usage metadata as the wire reports it.
#[derive(Debug, Clone)]
pub struct GoogleUsageMetadata {
    pub prompt_token_count: Option<u32>,
    pub candidates_token_count: Option<u32>,
    pub total_token_count: Option<u32>,
}

/// Abstract value of usage metadata.
pub struct GoogleUsageMetadataV {
    pub prompt_token_count: Option<u32>,
    pub candidates_token_count: Option<u32>,
    pub total_token_count: Option<u32>,
}

impl View for GoogleUsageMetadata {
    type V = GoogleUsageMetadataV;

    open spec fn view(&self) -> GoogleUsageMetadataV {
        GoogleUsageMetadataV {
            prompt_token_count: self.prompt_token_count,
            candidates_token_count: self.candidates_token_count,
            total_token_count: self.total_token_count,
        }
    }
}

/// The canonical usage a usage report stands for: prompt tokens in,
/// candidate tokens out, no cached count on this wire.
pub open spec fn g_usage_of(u: GoogleUsageMetadataV) -> UsageV {
    UsageV {
        input_tokens: match u.prompt_token_count {
            Some(x) => x,
            None => 0,
        },
        output_tokens: match u.candidates_token_count {
            Some(x) => x,
            None => 0,
        },
        cached_tokens: None,
    }
}

/// Convert a wire usage report to canonical usage.
pub fn convert_usage(u: &GoogleUsageMetadata) -> (r: Usage)
    ensures
        r@ == g_usage_of(u@),
{
    Usage {
        input_tokens: match u.prompt_token_count {
            Some(x) => x,
            None => 0,
        },
        output_tokens: match u.candidates_token_count {
            Some(x) => x,
            None => 0,
        },
        cached_tokens: None,
    }
}

/// One streamed frame: candidates and optional usage metadata.
#[derive(Debug, Clone)]
pub struct GoogleResponse {
    pub candidates: Vec<GoogleCandidate>,
    pub usage_metadata: Option<GoogleUsageMetadata>,
}

/// Abstract value of a frame.
pub struct GoogleResponseV {
    pub candidates: Seq<GoogleCandidateV>,
    pub usage_metadata: Option<GoogleUsageMetadataV>,
}

impl View for GoogleResponse {
    type V = GoogleResponseV;

    open spec fn view(&self) -> GoogleResponseV {
        GoogleResponseV {
            candidates: self.candidates.deep_view(),
            usage_metadata: match self.usage_metadata {
                Some(ref u) => Some(u@),
                None => None,
            },
        }
    }
}

// --- The normalizer state machine ---

/// A function call already announced, keyed by its name and serialized
/// arguments so that repeated streaming of the same call does not
/// announce it twice.
#[derive(Debug, Clone)]
pub struct AnnouncedCall {
    pub name: String,
    pub args: String,
}

/// Abstract value of an announced call.
pub struct AnnouncedCallV {
    pub name: Seq<char>,
    pub args: Seq<char>,
}

impl View for AnnouncedCall {
    type V = AnnouncedCallV;

    open spec fn view(&self) -> AnnouncedCallV {
        AnnouncedCallV { name: self.name@, args: self.args@ }
    }
}

impl DeepView for AnnouncedCall {
    type V = AnnouncedCallV;

    open spec fn deep_view(&self) -> AnnouncedCallV {
        self@
    }
}

/// Abstract state of the normalizer.
pub struct GoogleStateV {
    /// Whether the one text output item has been announced.
    pub has_text_output: bool,
    /// The calls announced so far, keyed by name and arguments.
    pub announced: Seq<AnnouncedCallV>,
    /// Whether any function call has been emitted.
    pub has_calls: bool,
}

/// The state a fresh normalizer starts in.
pub open spec fn g_init() -> GoogleStateV {
    GoogleStateV { has_text_output: false, announced: Seq::empty(), has_calls: false }
}

/// Whether a (name, arguments) pair was announced already.
pub open spec fn g_seen(announced: Seq<AnnouncedCallV>, name: Seq<char>, args: Seq<char>) -> bool {
    exists|i: int|
        0 <= i < announced.len() && (#[trigger] announced[i]).name == name && announced[i].args
            == args
}

/// The deterministic item id for a call: `fc_` before the fingerprint,
/// so that repeated streaming of the same call reuses it.
pub open spec fn g_fc_id(name: Seq<char>, args: Seq<char>) -> Seq<char> {
    "fc_"@ + name + ":"@ + args
}

/// The deterministic call id for a call: `call_` before the
/// fingerprint.
pub open spec fn g_call_id(name: Seq<char>, args: Seq<char>) -> Seq<char> {
    "call_"@ + name + ":"@ + args
}

/// The state after one part.
pub open spec fn g_part_step(st: GoogleStateV, p: GooglePartV) -> GoogleStateV {
    match p {
        GooglePartV::Text { text } => GoogleStateV { has_text_output: true, ..st },
        GooglePartV::FunctionCall { name, args } => GoogleStateV {
            announced: if g_seen(st.announced, name, args) {
                st.announced
            } else {
                st.announced.push(AnnouncedCallV { name, args })
            },
            has_calls: true,
            ..st
        },
        GooglePartV::FunctionResponse { .. } => st,
    }
}

/// The canonical events one part yields. Text announces the single text
/// item once and passes nonempty text through; a function call is
/// announced once per fingerprint and always completed with
/// deterministic ids; function responses belong to the caller and yield
/// nothing.
pub open spec fn g_part_events(st: GoogleStateV, p: GooglePartV) -> Seq<StreamEventV> {
    match p {
        GooglePartV::Text { text } => {
            (if !st.has_text_output {
                seq![StreamEventV::OutputItemAdded { item: OutputItemInfoV::Text }]
            } else {
                Seq::empty()
            }) + (if text.len() > 0 {
                seq![StreamEventV::ContentDelta { delta: text }]
            } else {
                Seq::empty()
            })
        },
        GooglePartV::FunctionCall { name, args } => {
            (if !g_seen(st.announced, name, args) {
                seq![
                    StreamEventV::OutputItemAdded {
                        item: OutputItemInfoV::FunctionCall {
                            name,
                            id: g_fc_id(name, args),
                        },
                    },
                ]
            } else {
                Seq::empty()
            }) + seq![
                StreamEventV::FunctionCallComplete {
                    call: FunctionCallV {
                        id: g_fc_id(name, args),
                        call_id: g_call_id(name, args),
                        name,
                        arguments: args,
                    },
                },
            ]
        },
        GooglePartV::FunctionResponse { .. } => Seq::empty(),
    }
}

/// The state after a list of parts.
pub open spec fn g_parts_run(st: GoogleStateV, parts: Seq<GooglePartV>) -> GoogleStateV
    decreases parts.len(),
{
    if parts.len() == 0 {
        st
    } else {
        g_parts_run(g_part_step(st, parts[0]), parts.drop_first())
    }
}

/// The canonical events a list of parts yields, in order.
pub open spec fn g_parts_events(st: GoogleStateV, parts: Seq<GooglePartV>) -> Seq<StreamEventV>
    decreases parts.len(),
{
    if parts.len() == 0 {
        Seq::empty()
    } else {
        g_part_events(st, parts[0]) + g_parts_events(g_part_step(st, parts[0]), parts.drop_first())
    }
}

/// The finish reason a Gemini finish string names, given whether calls
/// were emitted: MAX_TOKENS is Length, SAFETY is ContentFilter, and
/// everything else is ToolCalls when a call was emitted, else Stop.
pub open spec fn g_finish(fr: Seq<char>, has_calls: bool) -> FinishReason {
    if fr == "MAX_TOKENS"@ {
        FinishReason::Length
    } else if fr == "SAFETY"@ {
        FinishReason::ContentFilter
    } else if has_calls {
        FinishReason::ToolCalls
    } else {
        FinishReason::Stop
    }
}

/// The canonical usage of an optional usage report, zero when absent.
pub open spec fn g_opt_usage(u: Option<GoogleUsageMetadataV>) -> UsageV {
    match u {
        Some(m) => g_usage_of(m),
        None => UsageV::zero(),
    }
}

/// The state after one frame: its first candidate's parts, in order.
pub open spec fn g_frame_step(st: GoogleStateV, f: GoogleResponseV) -> GoogleStateV {
    if f.candidates.len() > 0 {
        g_parts_run(st, f.candidates[0].content.parts)
    } else {
        st
    }
}

/// The canonical events one frame yields: its first candidate's parts
/// in order, then `Done` when the candidate carries a finish reason; a
/// frame without candidates but with usage metadata still yields
/// `Done{Stop}` with that usage.
pub open spec fn g_frame_events(st: GoogleStateV, f: GoogleResponseV) -> Seq<StreamEventV> {
    if f.candidates.len() > 0 {
        let c = f.candidates[0];
        g_parts_events(st, c.content.parts) + (match c.finish_reason {
            Some(fr) => seq![
                StreamEventV::Done {
                    finish_reason: g_finish(fr, g_parts_run(st, c.content.parts).has_calls),
                    usage: g_opt_usage(f.usage_metadata),
                },
            ],
            None => Seq::empty(),
        })
    } else {
        match f.usage_metadata {
            Some(u) => seq![
                StreamEventV::Done { finish_reason: FinishReason::Stop, usage: g_usage_of(u) },
            ],
            None => Seq::empty(),
        }
    }
}

/// The normalizer for one Gemini response stream.
#[derive(Debug)]
pub struct GoogleNormalizer {
    has_text_output: bool,
    announced: Vec<AnnouncedCall>,
    has_calls: bool,
}

impl View for GoogleNormalizer {
    type V = GoogleStateV;

    closed spec fn view(&self) -> GoogleStateV {
        GoogleStateV {
            has_text_output: self.has_text_output,
            announced: self.announced.deep_view(),
            has_calls: self.has_calls,
        }
    }
}

/// Whether a pair was announced already, decided by one pass.
fn g_seen_exec(announced: &Vec<AnnouncedCall>, name: &str, args: &str) -> (r: bool)
    ensures
        r == g_seen(announced.deep_view(), name@, args@),
{
    let n = announced.len();
    for i in 0..n
        invariant
            n == announced@.len(),
            !g_seen(announced.deep_view().take(i as int), name@, args@),
    {
        if str_eq(announced[i].name.as_str(), name) && str_eq(announced[i].args.as_str(), args) {
            assert(announced.deep_view()[i as int].name == name@);
            return true;
        }
        assert forall|j: int| 0 <= j < i + 1 implies !((#[trigger] announced.deep_view().take(
            i + 1,
        )[j]).name == name@ && announced.deep_view().take(i + 1)[j].args == args@) by {
            if j < i {
                let pre = announced.deep_view().take(i as int);
                assert(!(pre[j].name == name@ && pre[j].args == args@));
            }
        }
    }
    assert(announced.deep_view().take(n as int) =~= announced.deep_view());
    false
}

impl GoogleNormalizer {
    /// Create a normalizer for one response stream.
    pub fn new() -> (r: GoogleNormalizer)
        ensures
            r@ == g_init(),
    {
        let r = GoogleNormalizer { has_text_output: false, announced: Vec::new(), has_calls: false };
        proof {
            assert(r@.announced =~= g_init().announced);
        }
        r
    }

    /// Convert one streamed frame, updating the announcement state and
    /// returning the canonical events it yields.
    pub fn convert_response(&mut self, frame: &GoogleResponse) -> (r: Vec<StreamEvent>)
        ensures
            final(self)@ == g_frame_step(old(self)@, frame@),
            r.deep_view() == g_frame_events(old(self)@, frame@),
    {
        let ghost st0 = self@;
        let mut out: Vec<StreamEvent> = Vec::new();
        if self.candidate_count_positive(frame) {
            let ghost partsg = frame@.candidates[0].content.parts;
            let parts = &frame.candidates[0].content.parts;
            let n = parts.len();
            let mut i: usize = 0;
            proof {
                assert(partsg.take(0) =~= Seq::<GooglePartV>::empty());
                assert(out.deep_view() =~= g_parts_events(st0, partsg.take(0)));
            }
            while i < n
                invariant
                    0 <= i <= n,
                    n == parts@.len(),
                    partsg == parts.deep_view(),
                    partsg == frame@.candidates[0].content.parts,
                    self@ == g_parts_run(st0, partsg.take(i as int)),
                    out.deep_view() == g_parts_events(st0, partsg.take(i as int)),
                decreases n - i,
            {
                let ghost stv = self@;
                let ghost outv = out.deep_view();
                proof {
                    lemma_g_parts_snoc(st0, partsg, i as int);
                }
                match &parts[i] {
                    GooglePart::Text { text } => {
                        if !self.has_text_output {
                            out.push(StreamEvent::OutputItemAdded { item: OutputItemInfo::Text });
                            self.has_text_output = true;
                        }
                        if !text.as_str().is_empty() {
                            out.push(StreamEvent::ContentDelta { delta: text.clone() });
                        }
                        proof {
                            assert(out.deep_view() =~= outv + g_part_events(
                                stv,
                                partsg[i as int],
                            ));
                        }
                    },
                    GooglePart::FunctionCall { name, args } => {
                        let fc_id = build_fc_id(name.as_str(), args.as_str());
                        let call_id = build_call_id(name.as_str(), args.as_str());
                        if !g_seen_exec(&self.announced, name.as_str(), args.as_str()) {
                            out.push(StreamEvent::OutputItemAdded {
                                item: OutputItemInfo::FunctionCall {
                                    name: name.clone(),
                                    id: fc_id.clone(),
                                },
                            });
                            let ghost prevann = self@.announced;
                            self.announced.push(AnnouncedCall {
                                name: name.clone(),
                                args: args.clone(),
                            });
                            proof {
                                assert(self@.announced =~= prevann.push(AnnouncedCallV {
                                    name: name@,
                                    args: args@,
                                }));
                            }
                        }
                        self.has_calls = true;
                        out.push(StreamEvent::FunctionCallComplete {
                            call: FunctionCall {
                                id: fc_id,
                                call_id,
                                name: name.clone(),
                                arguments: args.clone(),
                            },
                        });
                        proof {
                            assert(out.deep_view() =~= outv + g_part_events(
                                stv,
                                partsg[i as int],
                            ));
                        }
                    },
                    GooglePart::FunctionResponse { .. } => {
                        proof {
                            assert(out.deep_view() =~= outv + g_part_events(
                                stv,
                                partsg[i as int],
                            ));
                        }
                    },
                }
                i = i + 1;
            }
            proof {
                assert(partsg.take(n as int) =~= partsg);
            }
            match &frame.candidates[0].finish_reason {
                Some(fr) => {
                    let finish = if str_eq(fr.as_str(), "MAX_TOKENS") {
                        FinishReason::Length
                    } else if str_eq(fr.as_str(), "SAFETY") {
                        FinishReason::ContentFilter
                    } else if self.has_calls {
                        FinishReason::ToolCalls
                    } else {
                        FinishReason::Stop
                    };
                    let usage = match &frame.usage_metadata {
                        Some(u) => convert_usage(u),
                        None => Usage::zero(),
                    };
                    out.push(StreamEvent::Done { finish_reason: finish, usage });
                },
                None => {},
            }
            proof {
                assert(out.deep_view() =~= g_frame_events(st0, frame@));
            }
        } else {
            match &frame.usage_metadata {
                Some(u) => {
                    let usage = convert_usage(u);
                    out.push(StreamEvent::Done { finish_reason: FinishReason::Stop, usage });
                },
                None => {},
            }
            proof {
                assert(out.deep_view() =~= g_frame_events(st0, frame@));
            }
        }
        out
    }

    /// Whether the frame has any candidate.
    fn candidate_count_positive(&self, frame: &GoogleResponse) -> (r: bool)
        ensures
            r == (frame@.candidates.len() > 0),
    {
        frame.candidates.len() > 0
    }
}

/// Running one more part extends the run by that part's step.
proof fn lemma_g_parts_snoc(st: GoogleStateV, parts: Seq<GooglePartV>, i: int)
    requires
        0 <= i < parts.len(),
    ensures
        g_parts_run(st, parts.take(i + 1)) == g_part_step(
            g_parts_run(st, parts.take(i)),
            parts[i],
        ),
        g_parts_events(st, parts.take(i + 1)) =~= g_parts_events(st, parts.take(i))
            + g_part_events(g_parts_run(st, parts.take(i)), parts[i]),
    decreases i,
{
    if i == 0 {
        let s1 = parts.take(1);
        assert(s1.len() == 1 && s1[0] == parts[0]);
        assert(s1.drop_first() =~= Seq::<GooglePartV>::empty());
        assert(parts.take(0) =~= Seq::<GooglePartV>::empty());
        assert(g_parts_run(g_part_step(st, parts[0]), s1.drop_first()) == g_part_step(
            st,
            parts[0],
        ));
        assert(g_parts_events(g_part_step(st, parts[0]), s1.drop_first()) =~= Seq::<
            StreamEventV,
        >::empty());
    } else {
        let tail = parts.drop_first();
        assert(parts.take(i + 1)[0] == parts[0]);
        assert(parts.take(i + 1).drop_first() =~= tail.take(i));
        assert(parts.take(i).drop_first() =~= tail.take(i - 1));
        assert(parts.take(i)[0] == parts[0]);
        assert(tail[i - 1] == parts[i]);
        lemma_g_parts_snoc(g_part_step(st, parts[0]), tail, i - 1);
    }
}

/// A frame with no candidates but with usage metadata still yields
/// `Done`, with Stop and that usage.
pub proof fn lemma_gemini_usage_only_done(st: GoogleStateV, f: GoogleResponseV)
    requires
        f.candidates.len() == 0,
        f.usage_metadata is Some,
    ensures
        g_frame_events(st, f) =~= seq![
            StreamEventV::Done {
                finish_reason: FinishReason::Stop,
                usage: g_usage_of(f.usage_metadata->0),
            },
        ],
{
}

/// No part ever yields an empty text delta.
pub proof fn lemma_gemini_no_empty_delta(st: GoogleStateV, parts: Seq<GooglePartV>)
    ensures
        forall|i: int|
            0 <= i < g_parts_events(st, parts).len() ==> ((#[trigger] g_parts_events(
                st,
                parts,
            )[i]) matches StreamEventV::ContentDelta { delta } ==> delta.len() > 0),
    decreases parts.len(),
{
    if parts.len() > 0 {
        lemma_gemini_no_empty_delta(g_part_step(st, parts[0]), parts.drop_first());
        let head = g_part_events(st, parts[0]);
        let tail = g_parts_events(g_part_step(st, parts[0]), parts.drop_first());
        assert forall|i: int|
            0 <= i < g_parts_events(st, parts).len() implies ((#[trigger] g_parts_events(
            st,
            parts,
        )[i]) matches StreamEventV::ContentDelta { delta } ==> delta.len() > 0) by {
            if i < head.len() {
                assert(g_parts_events(st, parts)[i] == head[i]);
            } else {
                assert(g_parts_events(st, parts)[i] == tail[i - head.len()]);
            }
        }
    }
}

/// Whether a frame yields a `Done` event.
pub open spec fn g_emits_done(f: GoogleResponseV) -> bool {
    if f.candidates.len() > 0 {
        f.candidates[0].finish_reason is Some
    } else {
        f.usage_metadata is Some
    }
}

/// The state after a sequence of frames.
pub open spec fn g_run_state(st: GoogleStateV, fs: Seq<GoogleResponseV>) -> GoogleStateV
    decreases fs.len(),
{
    if fs.len() == 0 {
        st
    } else {
        g_run_state(g_frame_step(st, fs[0]), fs.drop_first())
    }
}

/// The canonical events a sequence of frames yields, in order.
pub open spec fn g_run_events(st: GoogleStateV, fs: Seq<GoogleResponseV>) -> Seq<StreamEventV>
    decreases fs.len(),
{
    if fs.len() == 0 {
        Seq::empty()
    } else {
        g_frame_events(st, fs[0]) + g_run_events(g_frame_step(st, fs[0]), fs.drop_first())
    }
}

/// A frame that does not signal completion yields no `Done`.
proof fn lemma_g_frame_no_done(st: GoogleStateV, f: GoogleResponseV)
    requires
        !g_emits_done(f),
    ensures
        forall|i: int|
            0 <= i < g_frame_events(st, f).len() ==> !((#[trigger] g_frame_events(
                st,
                f,
            )[i]) is Done),
{
    if f.candidates.len() > 0 {
        lemma_g_parts_no_done(st, f.candidates[0].content.parts);
        assert(g_frame_events(st, f) =~= g_parts_events(st, f.candidates[0].content.parts));
    }
}

/// Part events are never `Done`.
proof fn lemma_g_parts_no_done(st: GoogleStateV, parts: Seq<GooglePartV>)
    ensures
        forall|i: int|
            0 <= i < g_parts_events(st, parts).len() ==> !((#[trigger] g_parts_events(
                st,
                parts,
            )[i]) is Done),
    decreases parts.len(),
{
    if parts.len() > 0 {
        lemma_g_parts_no_done(g_part_step(st, parts[0]), parts.drop_first());
        let head = g_part_events(st, parts[0]);
        let tail = g_parts_events(g_part_step(st, parts[0]), parts.drop_first());
        assert forall|i: int| 0 <= i < g_parts_events(st, parts).len() implies !((
        #[trigger] g_parts_events(st, parts)[i]) is Done) by {
            if i < head.len() {
                assert(g_parts_events(st, parts)[i] == head[i]);
            } else {
                assert(g_parts_events(st, parts)[i] == tail[i - head.len()]);
            }
        }
    }
}

/// Exactly one `Done` is emitted, and it is the last event, for any
/// frame sequence whose one completion-signalling frame comes last and
/// signals through a candidate's finish reason.
pub proof fn lemma_gemini_single_done(st: GoogleStateV, fs: Seq<GoogleResponseV>)
    requires
        fs.len() > 0,
        g_emits_done(fs.last()),
        fs.last().candidates.len() > 0,
        forall|i: int| 0 <= i < fs.len() - 1 ==> !g_emits_done(#[trigger] fs[i]),
    ensures
        g_run_events(st, fs).len() > 0,
        g_run_events(st, fs).last() is Done,
        forall|i: int|
            0 <= i < g_run_events(st, fs).len() - 1 ==> !((#[trigger] g_run_events(
                st,
                fs,
            )[i]) is Done),
    decreases fs.len(),
{
    let run = g_run_events(st, fs);
    if fs.len() == 1 {
        assert(g_run_events(g_frame_step(st, fs[0]), fs.drop_first()) =~= Seq::<
            StreamEventV,
        >::empty());
        assert(run =~= g_frame_events(st, fs[0]));
        let f = fs[0];
        let c = f.candidates[0];
        let pevs = g_parts_events(st, c.content.parts);
        lemma_g_parts_no_done(st, c.content.parts);
        assert(run.last() is Done);
        assert forall|i: int| 0 <= i < run.len() - 1 implies !((#[trigger] run[i]) is Done) by {
            assert(run[i] == pevs[i]);
        }
    } else {
        let st1 = g_frame_step(st, fs[0]);
        let rest = fs.drop_first();
        assert(rest.last() == fs.last());
        assert forall|i: int| 0 <= i < rest.len() - 1 implies !g_emits_done(
            #[trigger] rest[i],
        ) by {
            assert(rest[i] == fs[i + 1]);
        }
        lemma_gemini_single_done(st1, rest);
        let head = g_frame_events(st, fs[0]);
        lemma_g_frame_no_done(st, fs[0]);
        let tail = g_run_events(st1, rest);
        assert(run == head + tail);
        assert(run.last() == tail.last());
        assert forall|i: int| 0 <= i < run.len() - 1 implies !((#[trigger] run[i]) is Done) by {
            if i < head.len() {
                assert(run[i] == head[i]);
            } else {
                assert(run[i] == tail[i - head.len()]);
            }
        }
    }
}

/// Every pair in the announced set has an announcement among the given
/// events.
spec fn g_ann_inv(announced: Seq<AnnouncedCallV>, evs: Seq<StreamEventV>) -> bool {
    forall|k: int|
        0 <= k < announced.len() ==> crate::accumulator::has_added_with_name(
            evs,
            (#[trigger] announced[k]).name,
        )
}

/// One part keeps the announced set covered and announces every
/// completion it emits.
proof fn lemma_g_part_announced(st: GoogleStateV, p: GooglePartV, base: Seq<StreamEventV>)
    requires
        g_ann_inv(st.announced, base),
    ensures
        g_ann_inv(g_part_step(st, p).announced, base + g_part_events(st, p)),
        forall|j: int|
            0 <= j < g_part_events(st, p).len() ==> (((#[trigger] g_part_events(st, p)[j])
                is FunctionCallComplete) ==> crate::accumulator::has_added_with_name(
                base + g_part_events(st, p).take(j),
                g_part_events(st, p)[j]->FunctionCallComplete_call.name,
            )),
{
    let out = g_part_events(st, p);
    let st1 = g_part_step(st, p);
    assert forall|k: int| 0 <= k < st1.announced.len() implies
        crate::accumulator::has_added_with_name(
        base + out,
        (#[trigger] st1.announced[k]).name,
    ) by {
        match p {
            GooglePartV::FunctionCall { name, args } => {
                if !g_seen(st.announced, name, args) && k == st.announced.len() {
                    assert(crate::accumulator::is_fc_added_named(out[0], name));
                    assert((base + out)[base.len() as int] == out[0]);
                } else {
                    assert(st1.announced[k] == st.announced[k]);
                    crate::accumulator::lemma_has_added_monotone(
                        base,
                        out,
                        st.announced[k].name,
                    );
                }
            },
            _ => {
                assert(st1.announced[k] == st.announced[k]);
                crate::accumulator::lemma_has_added_monotone(base, out, st.announced[k].name);
            },
        }
    }
    assert forall|j: int|
        0 <= j < out.len() && ((#[trigger] out[j]) is FunctionCallComplete) implies
        crate::accumulator::has_added_with_name(
        base + out.take(j),
        out[j]->FunctionCallComplete_call.name,
    ) by {
        match p {
            GooglePartV::FunctionCall { name, args } => {
                if g_seen(st.announced, name, args) {
                    let k = choose|k: int|
                        0 <= k < st.announced.len() && (#[trigger] st.announced[k]).name == name
                            && st.announced[k].args == args;
                    assert(crate::accumulator::has_added_with_name(base, name));
                    crate::accumulator::lemma_has_added_monotone(base, out.take(j), name);
                } else {
                    assert(j == 1);
                    assert(crate::accumulator::is_fc_added_named(out[0], name));
                    assert((base + out.take(1))[base.len() as int] == out[0]);
                }
            },
            _ => {},
        }
    }
}

/// A part list keeps the announced set covered and announces every
/// completion it emits.
proof fn lemma_g_parts_announced(st: GoogleStateV, parts: Seq<GooglePartV>, base: Seq<StreamEventV>)
    requires
        g_ann_inv(st.announced, base),
    ensures
        g_ann_inv(g_parts_run(st, parts).announced, base + g_parts_events(st, parts)),
        forall|j: int|
            0 <= j < g_parts_events(st, parts).len() ==> (((#[trigger] g_parts_events(
                st,
                parts,
            )[j]) is FunctionCallComplete) ==> crate::accumulator::has_added_with_name(
                base + g_parts_events(st, parts).take(j),
                g_parts_events(st, parts)[j]->FunctionCallComplete_call.name,
            )),
    decreases parts.len(),
{
    if parts.len() == 0 {
        assert(base + g_parts_events(st, parts) =~= base);
    } else {
        let out0 = g_part_events(st, parts[0]);
        let st1 = g_part_step(st, parts[0]);
        let rest = g_parts_events(st1, parts.drop_first());
        let run = g_parts_events(st, parts);
        assert(run == out0 + rest);
        lemma_g_part_announced(st, parts[0], base);
        lemma_g_parts_announced(st1, parts.drop_first(), base + out0);
        assert(g_parts_run(st, parts) == g_parts_run(st1, parts.drop_first()));
        assert((base + out0) + rest =~= base + run);
        assert forall|j: int|
            0 <= j < run.len() && ((#[trigger] run[j]) is FunctionCallComplete) implies
            crate::accumulator::has_added_with_name(
            base + run.take(j),
            run[j]->FunctionCallComplete_call.name,
        ) by {
            if j < out0.len() {
                assert(run[j] == out0[j]);
                assert(run.take(j) =~= out0.take(j));
            } else {
                assert(run[j] == rest[j - out0.len()]);
                assert((base + out0) + rest.take(j - out0.len()) =~= base + run.take(j));
            }
        }
    }
}

/// One frame keeps the announced set covered and announces every
/// completion it emits (`Done` events complete nothing).
proof fn lemma_g_frame_announced(st: GoogleStateV, f: GoogleResponseV, base: Seq<StreamEventV>)
    requires
        g_ann_inv(st.announced, base),
    ensures
        g_ann_inv(g_frame_step(st, f).announced, base + g_frame_events(st, f)),
        forall|j: int|
            0 <= j < g_frame_events(st, f).len() ==> (((#[trigger] g_frame_events(st, f)[j])
                is FunctionCallComplete) ==> crate::accumulator::has_added_with_name(
                base + g_frame_events(st, f).take(j),
                g_frame_events(st, f)[j]->FunctionCallComplete_call.name,
            )),
{
    let run = g_frame_events(st, f);
    if f.candidates.len() > 0 {
        let parts = f.candidates[0].content.parts;
        let pevs = g_parts_events(st, parts);
        lemma_g_parts_announced(st, parts, base);
        assert forall|k: int| 0 <= k < g_frame_step(st, f).announced.len() implies
            crate::accumulator::has_added_with_name(
            base + run,
            (#[trigger] g_frame_step(st, f).announced[k]).name,
        ) by {
            let nm = g_frame_step(st, f).announced[k].name;
            assert(crate::accumulator::has_added_with_name(base + pevs, nm));
            let tail = run.skip(pevs.len() as int);
            assert((base + pevs) + tail =~= base + run);
            crate::accumulator::lemma_has_added_monotone(base + pevs, tail, nm);
        }
        assert forall|j: int|
            0 <= j < run.len() && ((#[trigger] run[j]) is FunctionCallComplete) implies
            crate::accumulator::has_added_with_name(
            base + run.take(j),
            run[j]->FunctionCallComplete_call.name,
        ) by {
            if j < pevs.len() {
                assert(run[j] == pevs[j]);
                assert(run.take(j) =~= pevs.take(j));
            } else {
                assert(run[j] == (match f.candidates[0].finish_reason {
                    Some(fr) => seq![
                        StreamEventV::Done {
                            finish_reason: g_finish(fr, g_parts_run(st, parts).has_calls),
                            usage: g_opt_usage(f.usage_metadata),
                        },
                    ],
                    None => Seq::empty(),
                })[j - pevs.len()]);
            }
        }
    } else {
        assert forall|k: int| 0 <= k < st.announced.len() implies
            crate::accumulator::has_added_with_name(
            base + run,
            (#[trigger] st.announced[k]).name,
        ) by {
            crate::accumulator::lemma_has_added_monotone(base, run, st.announced[k].name);
        }
    }
}

proof fn lemma_g_run_announced(
    st: GoogleStateV,
    fs: Seq<GoogleResponseV>,
    base: Seq<StreamEventV>,
)
    requires
        g_ann_inv(st.announced, base),
    ensures
        forall|j: int|
            0 <= j < g_run_events(st, fs).len() ==> (((#[trigger] g_run_events(st, fs)[j])
                is FunctionCallComplete) ==> crate::accumulator::has_added_with_name(
                base + g_run_events(st, fs).take(j),
                g_run_events(st, fs)[j]->FunctionCallComplete_call.name,
            )),
    decreases fs.len(),
{
    if fs.len() > 0 {
        let out0 = g_frame_events(st, fs[0]);
        let st1 = g_frame_step(st, fs[0]);
        let rest = g_run_events(st1, fs.drop_first());
        let run = g_run_events(st, fs);
        assert(run == out0 + rest);
        lemma_g_frame_announced(st, fs[0], base);
        lemma_g_run_announced(st1, fs.drop_first(), base + out0);
        assert forall|j: int|
            0 <= j < run.len() && ((#[trigger] run[j]) is FunctionCallComplete) implies
            crate::accumulator::has_added_with_name(
            base + run.take(j),
            run[j]->FunctionCallComplete_call.name,
        ) by {
            if j < out0.len() {
                assert(run[j] == out0[j]);
                assert(run.take(j) =~= out0.take(j));
            } else {
                assert(run[j] == rest[j - out0.len()]);
                assert((base + out0) + rest.take(j - out0.len()) =~= base + run.take(j));
            }
        }
    }
}

/// Every function-call completion a fresh Gemini normalizer emits was
/// announced earlier in its own canonical stream, with the same name:
/// the premise the accumulator's announcement law asks for.
pub proof fn lemma_gemini_announced(fs: Seq<GoogleResponseV>)
    ensures
        crate::accumulator::announced(g_run_events(g_init(), fs)),
{
    let run = g_run_events(g_init(), fs);
    lemma_g_run_announced(g_init(), fs, Seq::empty());
    assert forall|i: int|
        0 <= i < run.len() && ((#[trigger] run[i]) is FunctionCallComplete) implies
        crate::accumulator::has_added_with_name(
        run.take(i),
        run[i]->FunctionCallComplete_call.name,
    ) by {
        assert(Seq::<StreamEventV>::empty() + run.take(i) =~= run.take(i));
    }
}

/// End to end: every function-call item of a response buffered from a
/// fresh Gemini stream was announced in that stream, with its name,
/// before it completed.
pub proof fn lemma_gemini_buffered_calls_announced(
    fs: Seq<GoogleResponseV>,
    resp: crate::response::CompleteResponseV,
)
    requires
        crate::accumulator::buffer_outcome(g_run_events(g_init(), fs)) == Ok::<
            crate::response::CompleteResponseV,
            Seq<char>,
        >(resp),
    ensures
        forall|k: int|
            0 <= k < resp.output.len() ==> ((#[trigger] resp.output[k]) is FunctionCall
                ==> crate::accumulator::has_added_with_name(
                g_run_events(g_init(), fs),
                resp.output[k]->FunctionCall_call.name,
            )),
{
    lemma_gemini_announced(fs);
    crate::accumulator::lemma_buffered_calls_were_announced(g_run_events(g_init(), fs), resp);
}

/// Build the deterministic `fc_` item id.
fn build_fc_id(name: &str, args: &str) -> (r: String)
    ensures
        r@ == g_fc_id(name@, args@),
{
    let mut r = String::from_str("fc_");
    r.append(name);
    r.append(":");
    r.append(args);
    r
}

/// Build the deterministic `call_` call id.
fn build_call_id(name: &str, args: &str) -> (r: String)
    ensures
        r@ == g_call_id(name@, args@),
{
    let mut r = String::from_str("call_");
    r.append(name);
    r.append(":");
    r.append(args);
    r
}

// --- Outgoing history encoding ---

/// The generation knobs on the wire; `temperature` and `top_p` are in
/// thousandths, as in `LLMRequest`.
#[derive(Debug, Clone)]
pub struct GoogleGenerationConfig {
    pub temperature: Option<u32>,
    pub max_output_tokens: Option<u32>,
    pub top_p: Option<u32>,
}

/// One function declaration offered to the model; the schema travels as
/// JSON text.
#[derive(Debug, Clone)]
pub struct GoogleFunctionDeclaration {
    pub name: String,
    pub description: String,
    pub parameters: String,
}

/// Abstract value of a function declaration.
pub struct GoogleFunctionDeclarationV {
    pub name: Seq<char>,
    pub description: Seq<char>,
    pub parameters: Seq<char>,
}

impl View for GoogleFunctionDeclaration {
    type V = GoogleFunctionDeclarationV;

    open spec fn view(&self) -> GoogleFunctionDeclarationV {
        GoogleFunctionDeclarationV {
            name: self.name@,
            description: self.description@,
            parameters: self.parameters@,
        }
    }
}

impl DeepView for GoogleFunctionDeclaration {
    type V = GoogleFunctionDeclarationV;

    open spec fn deep_view(&self) -> GoogleFunctionDeclarationV {
        self@
    }
}

/// The tools wrapper the wire expects.
#[derive(Debug, Clone)]
pub struct GoogleTool {
    pub function_declarations: Vec<GoogleFunctionDeclaration>,
}

/// A whole request body in the Gemini-on-Vertex wire shape.
#[derive(Debug, Clone)]
pub struct GoogleRequest {
    pub contents: Vec<GoogleContent>,
    pub generation_config: Option<GoogleGenerationConfig>,
    pub tools: Option<Vec<GoogleTool>>,
    pub system_instruction: Option<GoogleContent>,
}

/// How many function-response parts a part list holds.
pub open spec fn count_fresp_parts(parts: Seq<GooglePartV>) -> int
    decreases parts.len(),
{
    if parts.len() == 0 {
        0
    } else {
        count_fresp_parts(parts.drop_last()) + (if parts.last() is FunctionResponse {
            1int
        } else {
            0int
        })
    }
}

/// How many function responses the history already carries in user
/// contents.
pub open spec fn count_responses(cs: Seq<GoogleContentV>) -> int
    decreases cs.len(),
{
    if cs.len() == 0 {
        0
    } else {
        count_responses(cs.drop_last()) + (if cs.last().role == "user"@ {
            count_fresp_parts(cs.last().parts)
        } else {
            0int
        })
    }
}

/// The names of the function-call parts of a part list, in order.
pub open spec fn calls_in(parts: Seq<GooglePartV>) -> Seq<Seq<char>>
    decreases parts.len(),
{
    if parts.len() == 0 {
        Seq::empty()
    } else {
        calls_in(parts.drop_last()) + (if parts.last() is FunctionCall {
            seq![parts.last()->FunctionCall_name]
        } else {
            Seq::empty()
        })
    }
}

/// The names of all function calls in model contents, in history order.
pub open spec fn model_call_names(cs: Seq<GoogleContentV>) -> Seq<Seq<char>>
    decreases cs.len(),
{
    if cs.len() == 0 {
        Seq::empty()
    } else {
        model_call_names(cs.drop_last()) + (if cs.last().role == "model"@ {
            calls_in(cs.last().parts)
        } else {
            Seq::empty()
        })
    }
}

/// The name recovered for the next function response: the N-th function
/// call in model history, where N is how many responses the history
/// already holds. This positional matching is the wire's convention;
/// it assumes calls and results interleave strictly.
pub open spec fn recovered_name(cs: Seq<GoogleContentV>) -> Seq<char> {
    let n = count_responses(cs);
    let names = model_call_names(cs);
    if 0 <= n < names.len() {
        names[n]
    } else {
        "unknown"@
    }
}

/// Whether a part list holds a function response.
pub open spec fn has_fresp(parts: Seq<GooglePartV>) -> bool {
    exists|i: int| 0 <= i < parts.len() && (#[trigger] parts[i]) is FunctionResponse
}

/// The system instruction and contents a history encodes to. The last
/// system turn becomes the system instruction (as user-role content);
/// user and assistant turns map to `user` and `model` contents; a
/// function call joins the latest model content or opens one; a
/// function response joins the latest user content that already holds
/// responses, else opens one, its name recovered positionally.
pub open spec fn g_encode(items: Seq<InputItemV>) -> (Option<GoogleContentV>, Seq<GoogleContentV>)
    decreases items.len(),
{
    if items.len() == 0 {
        (None, Seq::empty())
    } else {
        let (sys, cs) = g_encode(items.drop_last());
        match items.last() {
            InputItemV::Message(m) => {
                if m.role == Role::System {
                    (
                        Some(
                            GoogleContentV {
                                role: "user"@,
                                parts: seq![GooglePartV::Text { text: m.content }],
                            },
                        ),
                        cs,
                    )
                } else {
                    let role = if m.role == Role::User {
                        "user"@
                    } else {
                        "model"@
                    };
                    (
                        sys,
                        cs.push(
                            GoogleContentV {
                                role,
                                parts: seq![GooglePartV::Text { text: m.content }],
                            },
                        ),
                    )
                }
            },
            InputItemV::FunctionCall(c) => {
                let part = GooglePartV::FunctionCall { name: c.name, args: c.arguments };
                if cs.len() > 0 && cs.last().role == "model"@ {
                    let updated = GoogleContentV {
                        role: "model"@,
                        parts: cs.last().parts.push(part),
                    };
                    (sys, cs.update(cs.len() - 1, updated))
                } else {
                    (sys, cs.push(GoogleContentV { role: "model"@, parts: seq![part] }))
                }
            },
            InputItemV::FunctionCallOutput { call_id, output } => {
                let part = GooglePartV::FunctionResponse {
                    name: recovered_name(cs),
                    response: output,
                };
                if cs.len() > 0 && cs.last().role == "user"@ && has_fresp(cs.last().parts) {
                    let updated = GoogleContentV {
                        role: "user"@,
                        parts: cs.last().parts.push(part),
                    };
                    (sys, cs.update(cs.len() - 1, updated))
                } else {
                    (sys, cs.push(GoogleContentV { role: "user"@, parts: seq![part] }))
                }
            },
        }
    }
}

/// Whether a part list holds a function response, decided by one pass.
fn has_fresp_exec(parts: &Vec<GooglePart>) -> (r: bool)
    ensures
        r == has_fresp(parts.deep_view()),
{
    let n = parts.len();
    for i in 0..n
        invariant
            n == parts@.len(),
            !has_fresp(parts.deep_view().take(i as int)),
    {
        match &parts[i] {
            GooglePart::FunctionResponse { .. } => {
                assert(parts.deep_view()[i as int] is FunctionResponse);
                return true;
            },
            _ => {},
        }
        assert forall|j: int| 0 <= j < i + 1 implies !((#[trigger] parts.deep_view().take(
            i + 1,
        )[j]) is FunctionResponse) by {
            if j < i {
                assert(!(parts.deep_view().take(i as int)[j] is FunctionResponse));
            }
        }
    }
    assert(parts.deep_view().take(n as int) =~= parts.deep_view());
    false
}

/// Count the function-response parts of one part list.
fn count_fresp_parts_exec(parts: &Vec<GooglePart>) -> (r: usize)
    ensures
        r as int == count_fresp_parts(parts.deep_view()),
        r <= parts.deep_view().len(),
    decreases parts@.len(),
{
    let n = parts.len();
    let mut c: usize = 0;
    for i in 0..n
        invariant
            n == parts@.len(),
            c as int == count_fresp_parts(parts.deep_view().take(i as int)),
            c <= i,
    {
        proof {
            lemma_count_fresp_snoc(parts.deep_view(), i as int);
        }
        match &parts[i] {
            GooglePart::FunctionResponse { .. } => {
                c = c + 1;
            },
            _ => {},
        }
    }
    proof {
        assert(parts.deep_view().take(n as int) =~= parts.deep_view());
    }
    c
}

proof fn lemma_count_fresp_snoc(parts: Seq<GooglePartV>, i: int)
    requires
        0 <= i < parts.len(),
    ensures
        count_fresp_parts(parts.take(i + 1)) == count_fresp_parts(parts.take(i)) + (if parts[i]
            is FunctionResponse {
            1int
        } else {
            0int
        }),
{
    assert(parts.take(i + 1).drop_last() =~= parts.take(i));
    assert(parts.take(i + 1).last() == parts[i]);
}

proof fn lemma_calls_in_snoc(parts: Seq<GooglePartV>, i: int)
    requires
        0 <= i < parts.len(),
    ensures
        calls_in(parts.take(i + 1)) =~= calls_in(parts.take(i)) + (if parts[i] is FunctionCall {
            seq![parts[i]->FunctionCall_name]
        } else {
            Seq::empty()
        }),
{
    assert(parts.take(i + 1).drop_last() =~= parts.take(i));
    assert(parts.take(i + 1).last() == parts[i]);
}

proof fn lemma_count_responses_snoc(cs: Seq<GoogleContentV>, i: int)
    requires
        0 <= i < cs.len(),
    ensures
        count_responses(cs.take(i + 1)) == count_responses(cs.take(i)) + (if cs[i].role == "user"@ {
            count_fresp_parts(cs[i].parts)
        } else {
            0int
        }),
{
    assert(cs.take(i + 1).drop_last() =~= cs.take(i));
    assert(cs.take(i + 1).last() == cs[i]);
}

proof fn lemma_model_call_names_snoc(cs: Seq<GoogleContentV>, i: int)
    requires
        0 <= i < cs.len(),
    ensures
        model_call_names(cs.take(i + 1)) =~= model_call_names(cs.take(i)) + (if cs[i].role
            == "model"@ {
            calls_in(cs[i].parts)
        } else {
            Seq::empty()
        }),
{
    assert(cs.take(i + 1).drop_last() =~= cs.take(i));
    assert(cs.take(i + 1).last() == cs[i]);
}

/// The names of the function-call parts of one part list.
fn calls_in_exec(parts: &Vec<GooglePart>) -> (r: Vec<String>)
    ensures
        r.deep_view() == calls_in(parts.deep_view()),
{
    let n = parts.len();
    let mut r: Vec<String> = Vec::new();
    for i in 0..n
        invariant
            n == parts@.len(),
            r.deep_view() =~= calls_in(parts.deep_view().take(i as int)),
    {
        proof {
            lemma_calls_in_snoc(parts.deep_view(), i as int);
        }
        let ghost prev = r.deep_view();
        match &parts[i] {
            GooglePart::FunctionCall { name, .. } => {
                r.push(name.clone());
                proof {
                    assert(r.deep_view() =~= prev.push(
                        parts.deep_view()[i as int]->FunctionCall_name,
                    ));
                }
            },
            _ => {},
        }
    }
    proof {
        assert(parts.deep_view().take(n as int) =~= parts.deep_view());
    }
    r
}

/// Recover the function name for the next function response by
/// positional matching: the N-th model-history call, where N counts the
/// responses already present. The call id is not carried on this wire,
/// so it plays no part. The counts must fit the machine word, which
/// histories built by the encoder always satisfy.
pub fn find_function_name_by_call_id(contents: &Vec<GoogleContent>, call_id: &str) -> (r: Option<
    String,
>)
    requires
        count_responses(contents.deep_view()) <= usize::MAX,
        model_call_names(contents.deep_view()).len() <= usize::MAX,
    ensures
        ({
            let n = count_responses(contents.deep_view());
            let names = model_call_names(contents.deep_view());
            match r {
                Some(s) => 0 <= n < names.len() && s@ == names[n],
                None => n >= names.len(),
            }
        }),
{
    let ghost csg = contents.deep_view();
    let m = contents.len();
    // Count the responses already present.
    let mut resp_count: usize = 0;
    for i in 0..m
        invariant
            m == contents@.len(),
            csg == contents.deep_view(),
            count_responses(csg) <= usize::MAX,
            model_call_names(csg).len() <= usize::MAX,
            resp_count as int == count_responses(csg.take(i as int)),
    {
        proof {
            lemma_count_responses_snoc(csg, i as int);
            lemma_count_responses_prefix(csg, i + 1);
        }
        if str_eq(contents[i].role.as_str(), "user") {
            let c = count_fresp_parts_exec(&contents[i].parts);
            proof {
                lemma_count_fresp_le(csg[i as int].parts);
            }
            resp_count = resp_count + c;
        }
    }
    proof {
        assert(csg.take(m as int) =~= csg);
    }
    // Walk the model-history calls to the one at that position.
    let mut seen: usize = 0;
    for i in 0..m
        invariant
            m == contents@.len(),
            csg == contents.deep_view(),
            resp_count as int == count_responses(csg),
            model_call_names(csg).len() <= usize::MAX,
            seen as int == model_call_names(csg.take(i as int)).len(),
            seen <= resp_count,
    {
        proof {
            lemma_model_call_names_snoc(csg, i as int);
            lemma_model_names_prefix_step_pub(csg, i + 1);
        }
        if str_eq(contents[i].role.as_str(), "model") {
            let names = calls_in_exec(&contents[i].parts);
            let cn = names.len();
            proof {
                assert(names.deep_view().len() == calls_in(csg[i as int].parts).len());
            }
            if resp_count - seen < cn {
                let idx = resp_count - seen;
                proof {
                    let pre = model_call_names(csg.take(i as int));
                    let grown = model_call_names(csg.take(i + 1));
                    assert(grown[resp_count as int] == calls_in(csg[i as int].parts)[idx as int]);
                    assert(model_call_names(csg)[resp_count as int] == grown[resp_count as int]);
                    assert(resp_count < model_call_names(csg).len());
                }
                return Some(names[idx].clone());
            }
            seen = seen + cn;
        }
    }
    proof {
        assert(csg.take(m as int) =~= csg);
    }
    None
}

proof fn lemma_count_fresp_le(parts: Seq<GooglePartV>)
    ensures
        0 <= count_fresp_parts(parts) <= parts.len(),
    decreases parts.len(),
{
    if parts.len() > 0 {
        lemma_count_fresp_le(parts.drop_last());
    }
}

/// Counting over a prefix never exceeds counting over the whole.
proof fn lemma_count_responses_prefix(cs: Seq<GoogleContentV>, j: int)
    requires
        0 <= j <= cs.len(),
    ensures
        count_responses(cs.take(j)) <= count_responses(cs),
        count_responses(cs.take(j)) >= 0,
    decreases cs.len() - j,
{
    lemma_count_responses_nonneg(cs.take(j));
    if j == cs.len() {
        assert(cs.take(j) =~= cs);
    } else {
        lemma_count_responses_snoc(cs, j);
        lemma_count_fresp_le(cs[j].parts);
        lemma_count_responses_prefix(cs, j + 1);
    }
}

proof fn lemma_count_responses_nonneg(cs: Seq<GoogleContentV>)
    ensures
        count_responses(cs) >= 0,
    decreases cs.len(),
{
    if cs.len() > 0 {
        lemma_count_responses_nonneg(cs.drop_last());
        lemma_count_fresp_le(cs.last().parts);
    }
}

/// Each later content only appends model-call names.
pub(crate) proof fn lemma_model_names_prefix_step_pub(cs: Seq<GoogleContentV>, j: int)
    requires
        0 <= j <= cs.len(),
    ensures
        model_call_names(cs.take(j)).len() <= model_call_names(cs).len(),
        forall|k: int|
            0 <= k < model_call_names(cs.take(j)).len() ==> model_call_names(cs)[k]
                == model_call_names(cs.take(j))[k],
    decreases cs.len() - j,
{
    if j == cs.len() {
        assert(cs.take(j) =~= cs);
    } else {
        lemma_model_call_names_snoc(cs, j);
        lemma_model_names_prefix_step_pub(cs, j + 1);
    }
}

/// Whether some function-call item of `items` carries arguments that
/// are not one JSON value.
pub open spec fn g_some_bad_arguments(items: Seq<InputItemV>) -> bool {
    exists|i: int|
        0 <= i < items.len() && ((#[trigger] items[i]) matches InputItemV::FunctionCall(c)
            && !crate::strutil::json_ok(c.arguments))
}

/// Histories built by the encoder keep their counts small: responses
/// and model calls each number at most one per input item.
proof fn lemma_g_encode_bounds(items: Seq<InputItemV>)
    ensures
        0 <= count_responses(g_encode(items).1) <= items.len(),
        0 <= model_call_names(g_encode(items).1).len() <= items.len(),
    decreases items.len(),
{
    let cs = g_encode(items).1;
    lemma_count_responses_nonneg(cs);
    if items.len() > 0 {
        lemma_g_encode_bounds(items.drop_last());
        let prev = g_encode(items.drop_last()).1;
        match items.last() {
            InputItemV::Message(m) => {
                if m.role == Role::System {
                } else {
                    assert(cs.drop_last() =~= prev);
                    lemma_single_part_contrib(GooglePartV::Text { text: m.content });
                    lemma_count_responses_last_update(cs);
                }
            },
            InputItemV::FunctionCall(c) => {
                let part = GooglePartV::FunctionCall { name: c.name, args: c.arguments };
                if prev.len() > 0 && prev.last().role == "model"@ {
                    lemma_count_responses_last_update(prev);
                    lemma_count_responses_last_update(cs);
                    assert(cs.drop_last() =~= prev.drop_last());
                    lemma_push_part_contrib(prev.last().parts, part);
                } else {
                    assert(cs.drop_last() =~= prev);
                    lemma_single_part_contrib(part);
                    lemma_count_responses_last_update(cs);
                }
            },
            InputItemV::FunctionCallOutput { call_id, output } => {
                let part = GooglePartV::FunctionResponse {
                    name: recovered_name(prev),
                    response: output,
                };
                if prev.len() > 0 && prev.last().role == "user"@ && has_fresp(prev.last().parts) {
                    lemma_count_responses_last_update(prev);
                    lemma_count_responses_last_update(cs);
                    assert(cs.drop_last() =~= prev.drop_last());
                    lemma_push_part_contrib(prev.last().parts, part);
                } else {
                    assert(cs.drop_last() =~= prev);
                    lemma_single_part_contrib(part);
                    lemma_count_responses_last_update(cs);
                }
            },
        }
    }
}

/// Pushing one part changes the per-content contributions by at most
/// one.
proof fn lemma_push_part_contrib(ps: Seq<GooglePartV>, p: GooglePartV)
    ensures
        count_fresp_parts(ps.push(p)) == count_fresp_parts(ps) + (if p is FunctionResponse {
            1int
        } else {
            0int
        }),
        calls_in(ps.push(p)).len() == calls_in(ps).len() + (if p is FunctionCall {
            1int
        } else {
            0int
        }),
{
    assert(ps.push(p).drop_last() =~= ps);
    assert(ps.push(p).last() == p);
}

/// The contributions of a single-part content.
proof fn lemma_single_part_contrib(p: GooglePartV)
    ensures
        count_fresp_parts(seq![p]) == (if p is FunctionResponse {
            1int
        } else {
            0int
        }),
        calls_in(seq![p]).len() == (if p is FunctionCall {
            1int
        } else {
            0int
        }),
{
    assert(seq![p].drop_last() =~= Seq::<GooglePartV>::empty());
    assert(seq![p].last() == p);
    assert(count_fresp_parts(Seq::<GooglePartV>::empty()) == 0);
    assert(calls_in(Seq::<GooglePartV>::empty()) =~= Seq::<Seq<char>>::empty());
}

/// Appending or updating the last content changes the counts by the
/// difference of the last contributions.
proof fn lemma_count_responses_snoc_whole(prev: Seq<GoogleContentV>, cs: Seq<GoogleContentV>)
    requires
        cs.len() > 0,
        cs.drop_last() =~= prev || (prev.len() > 0 && cs.drop_last() =~= prev.drop_last()),
    ensures
        count_responses(cs) == count_responses(cs.drop_last()) + (if cs.last().role == "user"@ {
            count_fresp_parts(cs.last().parts)
        } else {
            0int
        }),
        model_call_names(cs).len() == model_call_names(cs.drop_last()).len() + (if cs.last().role
            == "model"@ {
            calls_in(cs.last().parts).len() as int
        } else {
            0int
        }),
{
}

/// Dropping the last content bounds its contribution.
proof fn lemma_count_responses_last_update(prev: Seq<GoogleContentV>)
    requires
        prev.len() > 0,
    ensures
        count_responses(prev) == count_responses(prev.drop_last()) + (if prev.last().role
            == "user"@ {
            count_fresp_parts(prev.last().parts)
        } else {
            0int
        }),
        model_call_names(prev).len() == model_call_names(prev.drop_last()).len() + (
        if prev.last().role == "model"@ {
            calls_in(prev.last().parts).len() as int
        } else {
            0int
        }),
{
}

/// The wire shape of one offered function declaration.
pub open spec fn g_decl_of(t: crate::types::ToolV) -> GoogleFunctionDeclarationV {
    GoogleFunctionDeclarationV {
        name: t.function.name,
        description: t.function.description,
        parameters: t.function.parameters,
    }
}

/// Convert the offered tools to one wire tools wrapper of function
/// declarations.
pub fn convert_tools(tools: &Vec<Tool>) -> (r: Vec<GoogleFunctionDeclaration>)
    ensures
        r.deep_view() == tools.deep_view().map_values(|t: crate::types::ToolV| g_decl_of(t)),
{
    let mut r: Vec<GoogleFunctionDeclaration> = Vec::new();
    let n = tools.len();
    for i in 0..n
        invariant
            n == tools@.len(),
            r.deep_view() =~= tools.deep_view().take(i as int).map_values(
                |t: crate::types::ToolV| g_decl_of(t),
            ),
    {
        let t = &tools[i];
        let ghost prev = r.deep_view();
        r.push(GoogleFunctionDeclaration {
            name: t.function.name.clone(),
            description: t.function.description.clone(),
            parameters: t.function.parameters.clone(),
        });
        proof {
            assert(r.deep_view() =~= prev.push(g_decl_of(tools.deep_view()[i as int])));
            assert(r.deep_view() =~= tools.deep_view().take(i + 1).map_values(
                |t: crate::types::ToolV| g_decl_of(t),
            ));
        }
    }
    proof {
        assert(tools.deep_view().take(n as int) =~= tools.deep_view());
    }
    r
}

/// Convert an `LLMRequest` to the Gemini-on-Vertex wire shape. Fails
/// exactly when a function-call item carries arguments that are not one
/// JSON value; otherwise the body holds the encoded history, the
/// generation knobs, and the offered tools as one declarations wrapper.
pub fn convert_request(request: &LLMRequest) -> (r: Result<GoogleRequest, Error>)
    ensures
        (match r {
            Ok(body) => {
                &&& !g_some_bad_arguments(request@.messages)
                &&& body.contents.deep_view() == g_encode(request@.messages).1
                &&& (match (g_encode(request@.messages).0, body.system_instruction) {
                    (Some(sc), Some(ref sw)) => sw@ == sc,
                    (None, None) => true,
                    _ => false,
                })
                &&& (match body.generation_config {
                    Some(ref g) => g.temperature == request@.temperature && g.max_output_tokens
                        == request@.max_tokens && g.top_p == request@.top_p,
                    None => false,
                })
                &&& (match (request@.tools, body.tools) {
                    (Some(ts), Some(ref ws)) => ws@.len() == 1 && ws@[0].function_declarations.deep_view()
                        == ts.map_values(|t: crate::types::ToolV| g_decl_of(t)),
                    (None, None) => true,
                    _ => false,
                })
            },
            Err(e) => g_some_bad_arguments(request@.messages) && (e@ matches ErrorV::Provider {
                provider,
                ..
            } && provider == "Google"@),
        }),
{
    let ghost itemsg = request@.messages;
    let mut contents: Vec<GoogleContent> = Vec::new();
    let mut system_instruction: Option<GoogleContent> = None;
    let n = request.messages.len();
    let mut i: usize = 0;
    proof {
        assert(itemsg.take(0) =~= Seq::<InputItemV>::empty());
        assert(contents.deep_view() =~= g_encode(itemsg.take(0)).1);
    }
    while i < n
        invariant
            0 <= i <= n,
            n == request.messages@.len(),
            itemsg == request@.messages,
            !g_some_bad_arguments(itemsg.take(i as int)),
            contents.deep_view() == g_encode(itemsg.take(i as int)).1,
            (match (g_encode(itemsg.take(i as int)).0, system_instruction) {
                (Some(sc), Some(ref sw)) => sw@ == sc,
                (None, None) => true,
                _ => false,
            }),
        decreases n - i,
    {
        let ghost prefix = itemsg.take(i as int);
        let ghost prev = contents.deep_view();
        proof {
            assert(itemsg.take(i + 1).drop_last() =~= prefix);
            assert(itemsg.take(i + 1).last() == itemsg[i as int]);
        }
        match &request.messages[i] {
            InputItem::Message(msg) => {
                match msg.role {
                    Role::System => {
                        let mut parts: Vec<GooglePart> = Vec::new();
                        parts.push(GooglePart::Text { text: msg.content.clone() });
                        let c = GoogleContent { role: String::from_str("user"), parts };
                        proof {
                            assert(c@.parts =~= seq![GooglePartV::Text { text: msg.content@ }]);
                        }
                        system_instruction = Some(c);
                    },
                    Role::User => {
                        let mut parts: Vec<GooglePart> = Vec::new();
                        parts.push(GooglePart::Text { text: msg.content.clone() });
                        contents.push(GoogleContent { role: String::from_str("user"), parts });
                        proof {
                            assert(contents.deep_view()[prev.len() as int].parts =~= seq![
                                GooglePartV::Text { text: msg.content@ },
                            ]);
                            assert(contents.deep_view() =~= g_encode(itemsg.take(i + 1)).1);
                        }
                    },
                    Role::Assistant => {
                        let mut parts: Vec<GooglePart> = Vec::new();
                        parts.push(GooglePart::Text { text: msg.content.clone() });
                        contents.push(GoogleContent { role: String::from_str("model"), parts });
                        proof {
                            assert(contents.deep_view()[prev.len() as int].parts =~= seq![
                                GooglePartV::Text { text: msg.content@ },
                            ]);
                            assert(contents.deep_view() =~= g_encode(itemsg.take(i + 1)).1);
                        }
                    },
                }
            },
            InputItem::FunctionCall(call) => {
                if !crate::strutil::json_value_ok(call.arguments.as_str()) {
                    proof {
                        assert(itemsg[i as int] matches InputItemV::FunctionCall(c)
                            && !crate::strutil::json_ok(c.arguments));
                    }
                    return Err(Error::provider("Google", "invalid function arguments"));
                }
                let part = GooglePart::FunctionCall {
                    name: call.name.clone(),
                    args: call.arguments.clone(),
                };
                let ghost partv = part@;
                let m = contents.len();
                let mut appended = false;
                if m > 0 {
                    if str_eq(contents[m - 1].role.as_str(), "model") {
                        appended = true;
                        let last = contents.pop().unwrap();
                        let mut parts = last.parts;
                        let ghost psv = parts.deep_view();
                        parts.push(part);
                        proof {
                            assert(parts.deep_view() =~= psv.push(partv));
                        }
                        contents.push(GoogleContent { role: String::from_str("model"), parts });
                        proof {
                            let updated = GoogleContentV {
                                role: "model"@,
                                parts: psv.push(partv),
                            };
                            assert(contents.deep_view() =~= prev.update(m - 1, updated));
                            assert(g_encode(itemsg.take(i + 1)).1 =~= prev.update(
                                m - 1,
                                updated,
                            ));
                        }
                    }
                }
                if !appended {
                    let part2 = GooglePart::FunctionCall {
                        name: call.name.clone(),
                        args: call.arguments.clone(),
                    };
                    let mut parts: Vec<GooglePart> = Vec::new();
                    parts.push(part2);
                    contents.push(GoogleContent { role: String::from_str("model"), parts });
                    proof {
                        assert(contents.deep_view()[m as int].parts =~= seq![partv]);
                        assert(contents.deep_view() =~= g_encode(itemsg.take(i + 1)).1);
                    }
                }
            },
            InputItem::FunctionCallOutput { call_id, output } => {
                proof {
                    lemma_g_encode_bounds(prefix);
                }
                let name = match find_function_name_by_call_id(&contents, call_id.as_str()) {
                    Some(s) => s,
                    None => String::from_str("unknown"),
                };
                assert(name@ == recovered_name(prev));
                let name2 = name.clone();
                let part = GooglePart::FunctionResponse {
                    name,
                    response: output.clone(),
                };
                let ghost partv = part@;
                let m = contents.len();
                let mut coalesced = false;
                if m > 0 {
                    let mut is_user_with_responses = false;
                    if str_eq(contents[m - 1].role.as_str(), "user") {
                        is_user_with_responses = has_fresp_exec(&contents[m - 1].parts);
                    }
                    if is_user_with_responses {
                        coalesced = true;
                        let last = contents.pop().unwrap();
                        let mut parts = last.parts;
                        let ghost psv = parts.deep_view();
                        parts.push(part);
                        proof {
                            assert(parts.deep_view() =~= psv.push(partv));
                        }
                        contents.push(GoogleContent { role: String::from_str("user"), parts });
                        proof {
                            let updated = GoogleContentV {
                                role: "user"@,
                                parts: psv.push(partv),
                            };
                            assert(contents.deep_view() =~= prev.update(m - 1, updated));
                            assert(g_encode(itemsg.take(i + 1)).1 =~= prev.update(
                                m - 1,
                                updated,
                            ));
                        }
                    }
                }
                if !coalesced {
                    let part2 = GooglePart::FunctionResponse {
                        name: name2,
                        response: output.clone(),
                    };
                    let mut parts: Vec<GooglePart> = Vec::new();
                    parts.push(part2);
                    contents.push(GoogleContent { role: String::from_str("user"), parts });
                    proof {
                        assert(contents.deep_view()[m as int].parts =~= seq![partv]);
                        assert(contents.deep_view() =~= g_encode(itemsg.take(i + 1)).1);
                    }
                }
            },
        }
        proof {
            assert forall|k: int|
                0 <= k < i + 1 && ((#[trigger] itemsg.take(i + 1)[k]) is FunctionCall) implies
                crate::strutil::json_ok(itemsg.take(i + 1)[k]->FunctionCall_0.arguments) by {
                if k < i {
                    assert(itemsg.take(i as int)[k] == itemsg.take(i + 1)[k]);
                    assert(!g_some_bad_arguments(itemsg.take(i as int)));
                }
            }
            assert(!g_some_bad_arguments(itemsg.take(i + 1)));
        }
        i = i + 1;
    }
    proof {
        assert(itemsg.take(n as int) =~= itemsg);
    }
    let generation_config = Some(GoogleGenerationConfig {
        temperature: request.temperature,
        max_output_tokens: request.max_tokens,
        top_p: request.top_p,
    });
    let tools = match &request.tools {
        Some(ts) => {
            let decls = convert_tools(ts);
            let mut wrap: Vec<GoogleTool> = Vec::new();
            wrap.push(GoogleTool { function_declarations: decls });
            Some(wrap)
        },
        None => None,
    };
    Ok(GoogleRequest { contents, generation_config, tools, system_instruction })
}

// --- Round trip ---

/// An input item with everything this wire does not carry cleared: the
/// provider-side item id and the call id of a function call (this wire
/// correlates calls and results positionally, not by id), and the call
/// id of a function output.
pub open spec fn g_scrub_item(item: InputItemV) -> InputItemV {
    match item {
        InputItemV::FunctionCall(c) => InputItemV::FunctionCall(
            FunctionCallV { id: Seq::empty(), call_id: Seq::empty(), ..c },
        ),
        InputItemV::FunctionCallOutput { call_id, output } => InputItemV::FunctionCallOutput {
            call_id: Seq::empty(),
            output,
        },
        _ => item,
    }
}

/// The item list with wire-less identities cleared.
pub open spec fn g_scrub_items(items: Seq<InputItemV>) -> Seq<InputItemV> {
    items.map_values(|it: InputItemV| g_scrub_item(it))
}

/// The two content roles differ.
proof fn lemma_g_roles_distinct()
    ensures
        "user"@ != "model"@,
{
    reveal_strlit("user");
    reveal_strlit("model");
    assert("user"@.len() == 4);
    assert("model"@.len() == 5);
}

/// Reading one part back as an input item, under the role of its
/// content entry.
pub open spec fn g_part_back(role: Seq<char>, p: GooglePartV) -> Option<InputItemV> {
    match p {
        GooglePartV::Text { text } => {
            if role == "user"@ {
                Some(InputItemV::Message(MessageV { role: Role::User, content: text }))
            } else {
                Some(InputItemV::Message(MessageV { role: Role::Assistant, content: text }))
            }
        },
        GooglePartV::FunctionCall { name, args } => {
            if role == "model"@ {
                Some(
                    InputItemV::FunctionCall(
                        FunctionCallV {
                            id: Seq::empty(),
                            call_id: Seq::empty(),
                            name,
                            arguments: args,
                        },
                    ),
                )
            } else {
                None
            }
        },
        GooglePartV::FunctionResponse { name, response } => {
            if role == "user"@ {
                Some(InputItemV::FunctionCallOutput { call_id: Seq::empty(), output: response })
            } else {
                None
            }
        },
    }
}

/// Reading a part list back, in order.
pub open spec fn g_parts_back(role: Seq<char>, parts: Seq<GooglePartV>) -> Option<Seq<InputItemV>>
    decreases parts.len(),
{
    if parts.len() == 0 {
        Some(Seq::empty())
    } else {
        match (g_parts_back(role, parts.drop_last()), g_part_back(role, parts.last())) {
            (Some(init), Some(x)) => Some(init.push(x)),
            _ => None,
        }
    }
}

/// Reading one content entry back.
pub open spec fn g_content_back(c: GoogleContentV) -> Option<Seq<InputItemV>> {
    if c.role == "user"@ || c.role == "model"@ {
        g_parts_back(c.role, c.parts)
    } else {
        None
    }
}

/// Reading a whole content list back, in order.
pub open spec fn g_contents_back(cs: Seq<GoogleContentV>) -> Option<Seq<InputItemV>>
    decreases cs.len(),
{
    if cs.len() == 0 {
        Some(Seq::empty())
    } else {
        match (g_contents_back(cs.drop_last()), g_content_back(cs.last())) {
            (Some(init), Some(tail)) => Some(init + tail),
            _ => None,
        }
    }
}

/// Reading a whole encoded body back: the system instruction first,
/// then the contents in order.
pub open spec fn g_body_back(sys: Option<GoogleContentV>, cs: Seq<GoogleContentV>) -> Option<
    Seq<InputItemV>,
> {
    match g_contents_back(cs) {
        Some(items) => {
            match sys {
                Some(c) => {
                    if c.parts.len() == 1 && c.parts[0] is Text {
                        Some(
                            seq![
                                InputItemV::Message(
                                    MessageV {
                                        role: Role::System,
                                        content: c.parts[0]->Text_text,
                                    },
                                ),
                            ] + items,
                        )
                    } else {
                        None
                    }
                },
                None => Some(Seq::<InputItemV>::empty() + items),
            }
        },
        None => None,
    }
}

/// Gluing one more read-back item onto the previous round trip.
proof fn lemma_g_round_trip_glue(
    items: Seq<InputItemV>,
    sys_items: Seq<InputItemV>,
    prev: Seq<InputItemV>,
    x: InputItemV,
)
    requires
        items.len() > 0,
        g_scrub_items(items.drop_last()) == sys_items + prev,
        g_scrub_item(items.last()) == x,
    ensures
        sys_items + (prev + seq![x]) =~= g_scrub_items(items),
        sys_items + (prev.push(x)) =~= g_scrub_items(items),
{
    let lhs = sys_items + (prev + seq![x]);
    assert(g_scrub_items(items).len() == items.len());
    assert(g_scrub_items(items.drop_last()).len() == items.len() - 1);
    assert(lhs.len() == items.len());
    assert forall|i: int| 0 <= i < items.len() implies #[trigger] lhs[i] == g_scrub_items(
        items,
    )[i] by {
        assert(g_scrub_items(items)[i] == g_scrub_item(items[i]));
        if i < items.len() - 1 {
            assert(items.drop_last()[i] == items[i]);
            assert(g_scrub_items(items.drop_last())[i] == g_scrub_item(items[i]));
            assert(lhs[i] == (sys_items + prev)[i]);
        } else {
            assert(lhs[i] == x);
        }
    }
    assert(lhs =~= g_scrub_items(items));
    assert(sys_items + (prev.push(x)) =~= lhs);
}

/// Encoding a history into the Gemini wire shape and reading it back
/// preserves roles, text, function names and arguments, and the order
/// that pairs calls with results — for any history whose one system
/// turn, if any, comes first. The wire carries no call ids, so
/// identities come back cleared; results pair with calls by position.
pub proof fn lemma_gemini_round_trip(items: Seq<InputItemV>)
    requires
        system_only_first(items),
    ensures
        g_body_back(g_encode(items).0, g_encode(items).1) == Some(g_scrub_items(items)),
    decreases items.len(),
{
    crate::openai::lemma_role_names_distinct();
    lemma_g_roles_distinct();
    let (sys, cs) = g_encode(items);
    if items.len() == 0 {
        assert(g_contents_back(cs) == Some(Seq::<InputItemV>::empty()));
        assert(g_scrub_items(items) =~= Seq::<InputItemV>::empty());
        assert(Seq::<InputItemV>::empty() + Seq::<InputItemV>::empty() =~= Seq::<
            InputItemV,
        >::empty());
    } else {
        let rest = items.drop_last();
        assert(system_only_first(rest)) by {
            assert forall|i: int|
                0 < i < rest.len() implies !((#[trigger] rest[i]) matches InputItemV::Message(m)
                && m.role == Role::System) by {
                assert(rest[i] == items[i]);
            }
        }
        lemma_gemini_round_trip(rest);
        let (psys, pcs) = g_encode(rest);
        let prev_items = g_contents_back(pcs);
        assert(prev_items is Some);
        let sys_items = (match psys {
            Some(c) => seq![
                InputItemV::Message(
                    MessageV { role: Role::System, content: c.parts[0]->Text_text },
                ),
            ],
            None => Seq::<InputItemV>::empty(),
        });
        assert(g_body_back(psys, pcs) == Some(sys_items + prev_items->0));
        match items.last() {
            InputItemV::Message(m) => {
                if m.role == Role::System {
                    assert(items.len() == 1) by {
                        if items.len() > 1 {
                            assert(items[items.len() - 1] matches InputItemV::Message(mm)
                                && mm.role == Role::System);
                        }
                    }
                    assert(rest.len() == 0);
                    assert(pcs =~= Seq::<GoogleContentV>::empty());
                    assert(cs == pcs);
                    assert(g_contents_back(cs) == Some(Seq::<InputItemV>::empty()));
                    let sysc = sys->0;
                    assert(sysc.parts.len() == 1 && sysc.parts[0] is Text);
                    assert(g_body_back(sys, cs) == Some(seq![
                        InputItemV::Message(MessageV { role: Role::System, content: m.content }),
                    ] + Seq::<InputItemV>::empty()));
                    assert(seq![
                        InputItemV::Message(MessageV { role: Role::System, content: m.content }),
                    ] + Seq::<InputItemV>::empty() =~= g_scrub_items(items));
                } else {
                    let role = if m.role == Role::User {
                        "user"@
                    } else {
                        "model"@
                    };
                    let newc = GoogleContentV {
                        role,
                        parts: seq![GooglePartV::Text { text: m.content }],
                    };
                    assert(cs == pcs.push(newc));
                    assert(cs.drop_last() =~= pcs);
                    assert(cs.last() == newc);
                    assert(g_content_back(newc) == Some(seq![InputItemV::Message(m)])) by {
                        let one = seq![GooglePartV::Text { text: m.content }];
                        assert(one.drop_last() =~= Seq::<GooglePartV>::empty());
                        assert(one.last() == GooglePartV::Text { text: m.content });
                        assert(g_parts_back(role, Seq::<GooglePartV>::empty()) == Some(Seq::<
                            InputItemV,
                        >::empty()));
                        assert(Seq::<InputItemV>::empty().push(InputItemV::Message(m)) =~= seq![
                            InputItemV::Message(m),
                        ]);
                    }
                    assert(g_body_back(sys, cs) == Some(sys_items + (prev_items->0 + seq![
                        InputItemV::Message(m),
                    ])));
                    lemma_g_round_trip_glue(items, sys_items, prev_items->0, InputItemV::Message(m));
                }
            },
            InputItemV::FunctionCall(c) => {
                let part = GooglePartV::FunctionCall { name: c.name, args: c.arguments };
                let back_item = InputItemV::FunctionCall(
                    FunctionCallV {
                        id: Seq::empty(),
                        call_id: Seq::empty(),
                        name: c.name,
                        arguments: c.arguments,
                    },
                );
                assert(g_part_back("model"@, part) == Some(back_item));
                if pcs.len() > 0 && pcs.last().role == "model"@ {
                    let lastc = pcs.last();
                    let updated = GoogleContentV {
                        role: "model"@,
                        parts: lastc.parts.push(part),
                    };
                    assert(cs == pcs.update(pcs.len() - 1, updated));
                    assert(cs.drop_last() =~= pcs.drop_last());
                    assert(cs.last() == updated);
                    assert(g_content_back(updated) == Some(
                        g_content_back(lastc)->0.push(back_item),
                    )) by {
                        assert(lastc.parts.push(part).drop_last() =~= lastc.parts);
                        assert(lastc.parts.push(part).last() == part);
                    }
                    assert(prev_items->0 == g_contents_back(pcs.drop_last())->0 + g_content_back(
                        lastc,
                    )->0);
                    assert(g_contents_back(pcs.drop_last())->0 + (g_content_back(lastc)->0.push(
                        back_item,
                    )) =~= prev_items->0 + seq![back_item]);
                    assert(g_body_back(sys, cs) == Some(sys_items + (prev_items->0 + seq![
                        back_item,
                    ])));
                    lemma_g_round_trip_glue(items, sys_items, prev_items->0, back_item);
                } else {
                    let newc = GoogleContentV { role: "model"@, parts: seq![part] };
                    assert(cs == pcs.push(newc));
                    assert(cs.drop_last() =~= pcs);
                    assert(cs.last() == newc);
                    assert(g_content_back(newc) == Some(seq![back_item])) by {
                        let one = seq![part];
                        assert(one.drop_last() =~= Seq::<GooglePartV>::empty());
                        assert(one.last() == part);
                        assert(g_parts_back("model"@, Seq::<GooglePartV>::empty()) == Some(Seq::<
                            InputItemV,
                        >::empty()));
                        assert(Seq::<InputItemV>::empty().push(back_item) =~= seq![back_item]);
                    }
                    assert(g_body_back(sys, cs) == Some(sys_items + (prev_items->0 + seq![
                        back_item,
                    ])));
                    lemma_g_round_trip_glue(items, sys_items, prev_items->0, back_item);
                }
            },
            InputItemV::FunctionCallOutput { call_id, output } => {
                let part = GooglePartV::FunctionResponse {
                    name: recovered_name(pcs),
                    response: output,
                };
                let back_item = InputItemV::FunctionCallOutput {
                    call_id: Seq::empty(),
                    output,
                };
                assert(g_part_back("user"@, part) == Some(back_item));
                if pcs.len() > 0 && pcs.last().role == "user"@ && has_fresp(pcs.last().parts) {
                    let lastc = pcs.last();
                    let updated = GoogleContentV {
                        role: "user"@,
                        parts: lastc.parts.push(part),
                    };
                    assert(cs == pcs.update(pcs.len() - 1, updated));
                    assert(cs.drop_last() =~= pcs.drop_last());
                    assert(cs.last() == updated);
                    assert(g_content_back(updated) == Some(
                        g_content_back(lastc)->0.push(back_item),
                    )) by {
                        assert(lastc.parts.push(part).drop_last() =~= lastc.parts);
                        assert(lastc.parts.push(part).last() == part);
                    }
                    assert(prev_items->0 == g_contents_back(pcs.drop_last())->0 + g_content_back(
                        lastc,
                    )->0);
                    assert(g_contents_back(pcs.drop_last())->0 + (g_content_back(lastc)->0.push(
                        back_item,
                    )) =~= prev_items->0 + seq![back_item]);
                    assert(g_body_back(sys, cs) == Some(sys_items + (prev_items->0 + seq![
                        back_item,
                    ])));
                    lemma_g_round_trip_glue(items, sys_items, prev_items->0, back_item);
                } else {
                    let newc = GoogleContentV { role: "user"@, parts: seq![part] };
                    assert(cs == pcs.push(newc));
                    assert(cs.drop_last() =~= pcs);
                    assert(cs.last() == newc);
                    assert(g_content_back(newc) == Some(seq![back_item])) by {
                        let one = seq![part];
                        assert(one.drop_last() =~= Seq::<GooglePartV>::empty());
                        assert(one.last() == part);
                        assert(g_parts_back("user"@, Seq::<GooglePartV>::empty()) == Some(Seq::<
                            InputItemV,
                        >::empty()));
                        assert(Seq::<InputItemV>::empty().push(back_item) =~= seq![back_item]);
                    }
                    assert(g_body_back(sys, cs) == Some(sys_items + (prev_items->0 + seq![
                        back_item,
                    ])));
                    lemma_g_round_trip_glue(items, sys_items, prev_items->0, back_item);
                }
            },
        }
    }
}

/// The Vertex endpoint for a Gemini model: the regional host, the
/// project and location path, and the streaming method with SSE framing.
pub fn get_endpoint(project_id: &str, location: &str, model: &str) -> (r: String)
    ensures
        r@ == "https://"@ + location@ + "-aiplatform.googleapis.com/v1/projects/"@ + project_id@
            + "/locations/"@ + location@ + "/publishers/google/models/"@ + model@
            + ":streamGenerateContent?alt=sse"@,
{
    let mut r = String::from_str("https://");
    r.append(location);
    r.append("-aiplatform.googleapis.com/v1/projects/");
    r.append(project_id);
    r.append("/locations/");
    r.append(location);
    r.append("/publishers/google/models/");
    r.append(model);
    r.append(":streamGenerateContent?alt=sse");
    r
}

} // verus!
