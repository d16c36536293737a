//! Delta accumulation: folding canonical stream events into a complete
//! response.

use vstd::prelude::*;

use crate::error::{Error, ErrorV};
use crate::response::{calls_of, text_of, CompleteResponse, CompleteResponseV, OutputItem,
    OutputItemV};
use crate::types::{FinishReason, OutputItemInfo, StreamEvent, StreamEventV, Usage, UsageV};

verus! {

/// Abstract state of a `ResponseAccumulator`.
pub struct AccumV {
    pub items: Seq<OutputItemV>,
    pub finish: Option<FinishReason>,
    pub usage: Option<UsageV>,
}

/// The state a fresh accumulator starts in.
pub open spec fn acc_init() -> AccumV {
    AccumV { items: Seq::empty(), finish: None, usage: None }
}

/// Whether `items` holds at least one function call.
pub open spec fn has_call(items: Seq<OutputItemV>) -> bool {
    exists|i: int| 0 <= i < items.len() && items[i] is FunctionCall
}

/// One accumulator transition. A text delta extends a text tail, or opens
/// a new text item when the tail is not text; an added text item starts
/// empty; an added function-call item is only recorded once its arguments
/// complete; `Done` records finish reason and usage; `Error` changes
/// nothing here (the caller fails instead of finalizing).
pub open spec fn acc_step(a: AccumV, e: StreamEventV) -> AccumV {
    match e {
        StreamEventV::ContentDelta { delta } => {
            if a.items.len() > 0 && a.items.last() is Text {
                let merged = OutputItemV::Text {
                    content: a.items.last()->Text_content + delta,
                };
                AccumV { items: a.items.update(a.items.len() - 1, merged), ..a }
            } else {
                AccumV { items: a.items.push(OutputItemV::Text { content: delta }), ..a }
            }
        },
        StreamEventV::OutputItemAdded { item } => {
            if item is Text {
                AccumV { items: a.items.push(OutputItemV::Text { content: Seq::empty() }), ..a }
            } else {
                a
            }
        },
        StreamEventV::FunctionCallComplete { call } => AccumV {
            items: a.items.push(OutputItemV::FunctionCall { call }),
            ..a
        },
        StreamEventV::Done { finish_reason, usage } => AccumV {
            finish: Some(finish_reason),
            usage: Some(usage),
            ..a
        },
        StreamEventV::Error { .. } => a,
    }
}

/// The finish reason a finalized response carries: an explicit Length,
/// ContentFilter or ToolCalls signal stands; otherwise the response is
/// ToolCalls exactly when a function call is present, else Stop.
pub open spec fn final_finish(recorded: Option<FinishReason>, items: Seq<OutputItemV>)
    -> FinishReason {
    match recorded {
        Some(FinishReason::Length) => FinishReason::Length,
        Some(FinishReason::ContentFilter) => FinishReason::ContentFilter,
        Some(FinishReason::ToolCalls) => FinishReason::ToolCalls,
        _ => if has_call(items) {
            FinishReason::ToolCalls
        } else {
            FinishReason::Stop
        },
    }
}

/// The response a finalized accumulator state yields.
pub open spec fn finalized(a: AccumV) -> CompleteResponseV {
    CompleteResponseV {
        output: a.items,
        finish_reason: final_finish(a.finish, a.items),
        usage: match a.usage {
            Some(u) => u,
            None => UsageV::zero(),
        },
    }
}

/// `has_call` agrees with the length of the extracted call list.
pub proof fn lemma_has_call_iff_calls_of(items: Seq<OutputItemV>)
    ensures
        has_call(items) <==> calls_of(items).len() > 0,
    decreases items.len(),
{
    if items.len() > 0 {
        lemma_has_call_iff_calls_of(items.drop_first());
        if items[0] is FunctionCall {
        } else if has_call(items) {
            let i = choose|i: int| 0 <= i < items.len() && items[i] is FunctionCall;
            assert(items.drop_first()[i - 1] is FunctionCall);
        } else if has_call(items.drop_first()) {
            let i = choose|i: int|
                0 <= i < items.drop_first().len() && items.drop_first()[i] is FunctionCall;
            assert(items[i + 1] is FunctionCall);
        }
    }
}

/// Accumulates streaming deltas into a complete response.
#[derive(Debug)]
pub struct ResponseAccumulator {
    /// Ordered output items (text and function calls).
    output_items: Vec<OutputItem>,
    /// Final finish reason (if received).
    finish_reason: Option<FinishReason>,
    /// Final usage statistics (if received).
    usage: Option<Usage>,
}

impl View for ResponseAccumulator {
    type V = AccumV;

    closed spec fn view(&self) -> AccumV {
        AccumV {
            items: self.output_items.deep_view(),
            finish: self.finish_reason,
            usage: match self.usage {
                Some(u) => Some(u@),
                None => None,
            },
        }
    }
}

impl ResponseAccumulator {
    /// Create a new response accumulator.
    pub fn new() -> (r: ResponseAccumulator)
        ensures
            r@ == acc_init(),
    {
        let r = ResponseAccumulator { output_items: Vec::new(), finish_reason: None, usage: None };
        proof {
            assert(r@.items =~= acc_init().items);
        }
        r
    }

    /// Process one stream event, updating the accumulation.
    pub fn process_event(&mut self, event: StreamEvent) -> (r: Result<(), Error>)
        ensures
            final(self)@ == acc_step(old(self)@, event@),
            r is Ok,
    {
        let ghost prior = self@;
        match event {
            StreamEvent::ContentDelta { delta } => {
                let n = self.output_items.len();
                let mut is_text_tail = false;
                if n > 0 {
                    match &self.output_items[n - 1] {
                        OutputItem::Text { .. } => {
                            is_text_tail = true;
                        },
                        _ => {},
                    }
                }
                if is_text_tail {
                    let tail = self.output_items.pop().unwrap();
                    match tail {
                        OutputItem::Text { mut content } => {
                            content.append(delta.as_str());
                            self.output_items.push(OutputItem::Text { content });
                            proof {
                                assert(self@.items =~= acc_step(prior, StreamEventV::ContentDelta {
                                    delta: delta@,
                                }).items);
                            }
                        },
                        other => {
                            // Unreachable: the tail was just seen to be text.
                            proof {
                                assert(false);
                            }
                            self.output_items.push(other);
                        },
                    }
                } else {
                    self.output_items.push(OutputItem::Text { content: delta });
                    proof {
                        assert(self@.items =~= prior.items.push(OutputItemV::Text {
                            content: delta@,
                        }));
                    }
                }
            },
            StreamEvent::OutputItemAdded { item } => {
                match item {
                    OutputItemInfo::Text => {
                        self.output_items.push(OutputItem::Text { content: String::new() });
                        proof {
                            assert(self@.items =~= prior.items.push(OutputItemV::Text {
                                content: Seq::empty(),
                            }));
                        }
                    },
                    OutputItemInfo::FunctionCall { .. } => {
                        // The item is recorded when its arguments complete.
                    },
                }
            },
            StreamEvent::FunctionCallComplete { call } => {
                let ghost cv = call@;
                self.output_items.push(OutputItem::FunctionCall { call });
                proof {
                    assert(self@.items =~= prior.items.push(OutputItemV::FunctionCall {
                        call: cv,
                    }));
                }
            },
            StreamEvent::Done { finish_reason, usage } => {
                self.finish_reason = Some(finish_reason);
                self.usage = Some(usage);
            },
            StreamEvent::Error { .. } => {
                // A terminal error is surfaced by the caller; the
                // accumulated state is discarded there.
            },
        }
        Ok(())
    }

    /// Finalize and return the complete response.
    pub fn finalize(self) -> (r: Result<CompleteResponse, Error>)
        ensures
            r matches Ok(resp) && resp@ == finalized(self@),
    {
        let any_call = has_call_exec(&self.output_items);
        let finish = match self.finish_reason {
            Some(FinishReason::Length) => FinishReason::Length,
            Some(FinishReason::ContentFilter) => FinishReason::ContentFilter,
            Some(FinishReason::ToolCalls) => FinishReason::ToolCalls,
            _ => if any_call {
                FinishReason::ToolCalls
            } else {
                FinishReason::Stop
            },
        };
        let usage = match self.usage {
            Some(u) => u,
            None => Usage::zero(),
        };
        Ok(CompleteResponse { output: self.output_items, finish_reason: finish, usage })
    }

    /// Get the text accumulated so far (concatenated text items only).
    pub fn current_content(&self) -> (r: String)
        ensures
            r@ == text_of(self@.items),
    {
        concat_text(&self.output_items)
    }

    /// Get the function calls completed so far.
    pub fn completed_function_calls(&self) -> (r: Vec<crate::types::FunctionCall>)
        ensures
            r.deep_view() == calls_of(self@.items),
    {
        collect_calls(&self.output_items)
    }
}

impl Default for ResponseAccumulator {
    fn default() -> (r: ResponseAccumulator)
        ensures
            r@ == acc_init(),
    {
        ResponseAccumulator::new()
    }
}

/// Whether `items` holds a function call, decided by one pass.
fn has_call_exec(items: &Vec<OutputItem>) -> (r: bool)
    ensures
        r == has_call(items.deep_view()),
{
    let n = items.len();
    for i in 0..n
        invariant
            n == items.len(),
            !has_call(items.deep_view().take(i as int)),
    {
        match &items[i] {
            OutputItem::FunctionCall { .. } => {
                assert(items.deep_view()[i as int] is FunctionCall);
                return true;
            },
            OutputItem::Text { .. } => {},
        }
        assert forall|j: int| 0 <= j < i + 1 implies !(#[trigger] items.deep_view().take(
            i + 1,
        )[j] is FunctionCall) by {
            if j < i {
                assert(!(items.deep_view().take(i as int)[j] is FunctionCall));
            }
        }
    }
    assert(items.deep_view().take(n as int) =~= items.deep_view());
    false
}

/// The concatenation of the text items of `items`, in order.
pub(crate) fn concat_text(items: &Vec<OutputItem>) -> (r: String)
    ensures
        r@ == text_of(items.deep_view()),
{
    let ghost all = items.deep_view();
    let mut r = String::new();
    let n = items.len();
    assert(all.skip(0) =~= all);
    for i in 0..n
        invariant
            n == items.len(),
            all == items.deep_view(),
            text_of(all) =~= r@ + text_of(all.skip(i as int)),
    {
        match &items[i] {
            OutputItem::Text { content } => {
                r.append(content.as_str());
            },
            OutputItem::FunctionCall { .. } => {},
        }
        assert(all.skip(i as int).drop_first() =~= all.skip(i + 1));
    }
    assert(all.skip(n as int) =~= Seq::<OutputItemV>::empty());
    r
}

/// The function calls of `items`, in order.
pub(crate) fn collect_calls(items: &Vec<OutputItem>) -> (r: Vec<crate::types::FunctionCall>)
    ensures
        r.deep_view() == calls_of(items.deep_view()),
{
    let ghost all = items.deep_view();
    let mut r: Vec<crate::types::FunctionCall> = Vec::new();
    let n = items.len();
    assert(all.skip(0) =~= all);
    for i in 0..n
        invariant
            n == items.len(),
            all == items.deep_view(),
            calls_of(all) =~= r.deep_view() + calls_of(all.skip(i as int)),
    {
        match &items[i] {
            OutputItem::Text { .. } => {},
            OutputItem::FunctionCall { call } => {
                let ghost prev = r.deep_view();
                r.push(call.duplicate());
                proof {
                    assert(r.deep_view() =~= prev.push(call@));
                }
            },
        }
        assert(all.skip(i as int).drop_first() =~= all.skip(i + 1));
    }
    assert(all.skip(n as int) =~= Seq::<OutputItemV>::empty());
    assert(r.deep_view() =~= calls_of(all));
    r
}

/// The outcome of buffering a whole canonical event stream: the state the
/// accumulator reaches, stopping at the first `Done`, or the text of the
/// first `Error` met before it.
pub open spec fn fold_outcome(a: AccumV, events: Seq<StreamEventV>) -> Result<AccumV, Seq<char>>
    decreases events.len(),
{
    if events.len() == 0 {
        Ok(a)
    } else {
        match events[0] {
            StreamEventV::Done { .. } => Ok(acc_step(a, events[0])),
            StreamEventV::Error { error } => Err(error),
            _ => fold_outcome(acc_step(a, events[0]), events.drop_first()),
        }
    }
}

/// The complete response (or error) that a canonical event stream yields.
pub open spec fn buffer_outcome(events: Seq<StreamEventV>) -> Result<CompleteResponseV, Seq<char>> {
    match fold_outcome(acc_init(), events) {
        Ok(a) => Ok(finalized(a)),
        Err(msg) => Err(msg),
    }
}

/// Buffer a whole canonical event stream into a complete response,
/// stopping at the first `Done` and failing on a terminal `Error`.
pub fn buffer_events(events: Vec<StreamEvent>) -> (r: Result<CompleteResponse, Error>)
    ensures
        (match buffer_outcome(events.deep_view()) {
            Ok(resp) => r matches Ok(x) && x@ == resp,
            Err(msg) => r matches Err(e) && e@ == ErrorV::Streaming(msg),
        }),
{
    let ghost all = events.deep_view();
    let mut acc = ResponseAccumulator::new();
    let n = events.len();
    let mut i: usize = 0;
    assert(all.skip(0) =~= all);
    while i < n
        invariant
            n == events.len(),
            all == events.deep_view(),
            0 <= i <= n,
            fold_outcome(acc_init(), all) == fold_outcome(acc@, all.skip(i as int)),
        decreases n - i,
    {
        let ghost rest = all.skip(i as int);
        let ev = duplicate_event(&events[i]);
        proof {
            assert(rest[0] == all[i as int]);
            assert(rest.drop_first() =~= all.skip(i + 1));
        }
        match &ev {
            StreamEvent::Done { .. } => {
                let x = acc.process_event(ev);
                match x {
                    Ok(_) => {},
                    Err(e) => {
                        return Err(e);
                    },
                }
                return acc.finalize();
            },
            StreamEvent::Error { error } => {
                return Err(Error::Streaming(error.clone()));
            },
            _ => {
                let x = acc.process_event(ev);
                match x {
                    Ok(_) => {},
                    Err(e) => {
                        return Err(e);
                    },
                }
            },
        }
        i = i + 1;
    }
    assert(all.skip(n as int) =~= Seq::<StreamEventV>::empty());
    acc.finalize()
}

/// A field-by-field copy of a stream event with the same abstract value.
pub fn duplicate_event(e: &StreamEvent) -> (r: StreamEvent)
    ensures
        r@ == e@,
{
    match e {
        StreamEvent::ContentDelta { delta } => StreamEvent::ContentDelta { delta: delta.clone() },
        StreamEvent::OutputItemAdded { item } => StreamEvent::OutputItemAdded {
            item: match item {
                OutputItemInfo::Text => OutputItemInfo::Text,
                OutputItemInfo::FunctionCall { name, id } => OutputItemInfo::FunctionCall {
                    name: name.clone(),
                    id: id.clone(),
                },
            },
        },
        StreamEvent::FunctionCallComplete { call } => StreamEvent::FunctionCallComplete {
            call: call.duplicate(),
        },
        StreamEvent::Done { finish_reason, usage } => StreamEvent::Done {
            finish_reason: *finish_reason,
            usage: Usage {
                input_tokens: usage.input_tokens,
                output_tokens: usage.output_tokens,
                cached_tokens: usage.cached_tokens,
            },
        },
        StreamEvent::Error { error } => StreamEvent::Error { error: error.clone() },
    }
}

/// Feeding one canonical event stream into the accumulator twice, through
/// two independent instances, yields equal complete responses.
pub proof fn lemma_buffering_deterministic(
    events: Seq<StreamEventV>,
    r1: CompleteResponseV,
    r2: CompleteResponseV,
)
    requires
        buffer_outcome(events) == Ok::<CompleteResponseV, Seq<char>>(r1),
        buffer_outcome(events) == Ok::<CompleteResponseV, Seq<char>>(r2),
    ensures
        r1 == r2,
{
}

/// Whether `e` announces a function-call output item with the given
/// name.
pub open spec fn is_fc_added_named(e: StreamEventV, name: Seq<char>) -> bool {
    e matches StreamEventV::OutputItemAdded {
        item: crate::types::OutputItemInfoV::FunctionCall { name: n, .. },
    } && n == name
}

/// Whether some event of `evs` announces a function-call output item
/// with the given name.
pub open spec fn has_added_with_name(evs: Seq<StreamEventV>, name: Seq<char>) -> bool {
    exists|j: int| 0 <= j < evs.len() && is_fc_added_named(#[trigger] evs[j], name)
}

/// Whether every function-call completion in `evs` was announced
/// earlier in `evs` by an output-item-added event with the same name.
pub open spec fn announced(evs: Seq<StreamEventV>) -> bool {
    forall|i: int|
        0 <= i < evs.len() ==> ((#[trigger] evs[i]) is FunctionCallComplete
            ==> has_added_with_name(evs.take(i), evs[i]->FunctionCallComplete_call.name))
}

/// An announcement stays visible when more events follow.
pub proof fn lemma_has_added_monotone(a: Seq<StreamEventV>, b: Seq<StreamEventV>, name: Seq<char>)
    requires
        has_added_with_name(a, name),
    ensures
        has_added_with_name(a + b, name),
{
    let j = choose|j: int| 0 <= j < a.len() && is_fc_added_named(#[trigger] a[j], name);
    assert((a + b)[j] == a[j]);
}

/// An announcement inside a prefix is an announcement in the whole.
proof fn lemma_has_added_take(evs: Seq<StreamEventV>, i: int, name: Seq<char>)
    requires
        0 <= i <= evs.len(),
        has_added_with_name(evs.take(i), name),
    ensures
        has_added_with_name(evs, name),
{
    let j = choose|j: int|
        0 <= j < evs.take(i).len() && is_fc_added_named(#[trigger] evs.take(i)[j], name);
    assert(evs[j] == evs.take(i)[j]);
    assert(is_fc_added_named(evs[j], name));
}

/// The names of the function-call items an accumulator state can still
/// carry into the response were all announced in the processed prefix.
spec fn items_announced_in(items: Seq<OutputItemV>, evs: Seq<StreamEventV>) -> bool {
    forall|k: int|
        0 <= k < items.len() ==> ((#[trigger] items[k]) is FunctionCall ==> has_added_with_name(
            evs,
            items[k]->FunctionCall_call.name,
        ))
}

proof fn lemma_fold_calls(a: AccumV, whole: Seq<StreamEventV>, i: int)
    requires
        0 <= i <= whole.len(),
        announced(whole),
        items_announced_in(a.items, whole.take(i)),
    ensures
        (match fold_outcome(a, whole.skip(i)) {
            Ok(fa) => items_announced_in(fa.items, whole),
            Err(_) => true,
        }),
    decreases whole.len() - i,
{
    let evs = whole.skip(i);
    if evs.len() == 0 {
        assert(whole.take(i) =~= whole);
    } else {
        let e = evs[0];
        assert(e == whole[i]);
        let a1 = acc_step(a, e);
        assert(whole.take(i) + seq![whole[i]] =~= whole.take(i + 1));
        assert(items_announced_in(a1.items, whole.take(i + 1))) by {
            assert forall|k: int|
                0 <= k < a1.items.len() && (#[trigger] a1.items[k]) is FunctionCall implies
                has_added_with_name(whole.take(i + 1), a1.items[k]->FunctionCall_call.name) by {
                let name = a1.items[k]->FunctionCall_call.name;
                if k < a.items.len() && a.items[k] == a1.items[k] {
                    assert(has_added_with_name(whole.take(i), name));
                    lemma_has_added_monotone(whole.take(i), seq![whole[i]], name);
                } else {
                    match e {
                        StreamEventV::FunctionCallComplete { call } => {
                            if k == a.items.len() {
                                assert(a1.items[k] == (OutputItemV::FunctionCall { call }));
                                assert(has_added_with_name(whole.take(i), call.name));
                                lemma_has_added_monotone(whole.take(i), seq![whole[i]], call.name);
                            } else {
                                assert(a1.items[k] == a.items[k]);
                                assert(has_added_with_name(whole.take(i), name));
                                lemma_has_added_monotone(whole.take(i), seq![whole[i]], name);
                            }
                        },
                        StreamEventV::ContentDelta { delta } => {
                            assert(!(a1.items[k] is FunctionCall));
                        },
                        StreamEventV::OutputItemAdded { item } => {
                            assert(!(a1.items[k] is FunctionCall));
                        },
                        _ => {
                            assert(a1.items[k] == a.items[k]);
                            assert(has_added_with_name(whole.take(i), name));
                            lemma_has_added_monotone(whole.take(i), seq![whole[i]], name);
                        },
                    }
                }
            }
        }
        match e {
            StreamEventV::Done { .. } => {
                assert(fold_outcome(a, evs) == Ok::<AccumV, Seq<char>>(a1));
                assert forall|k: int|
                    0 <= k < a1.items.len() && (#[trigger] a1.items[k]) is FunctionCall implies
                    has_added_with_name(whole, a1.items[k]->FunctionCall_call.name) by {
                    lemma_has_added_take(whole, i + 1, a1.items[k]->FunctionCall_call.name);
                }
            },
            StreamEventV::Error { .. } => {},
            _ => {
                assert(evs.drop_first() =~= whole.skip(i + 1));
                lemma_fold_calls(a1, whole, i + 1);
            },
        }
    }
}

/// For every function-call item in a buffered response, the canonical
/// stream announced a function-call output item with the same name
/// before completing it — provided every completion in the stream was
/// announced, which the normalizers' own laws supply.
pub proof fn lemma_buffered_calls_were_announced(evs: Seq<StreamEventV>, resp: CompleteResponseV)
    requires
        announced(evs),
        buffer_outcome(evs) == Ok::<CompleteResponseV, Seq<char>>(resp),
    ensures
        forall|k: int|
            0 <= k < resp.output.len() ==> ((#[trigger] resp.output[k]) is FunctionCall
                ==> has_added_with_name(evs, resp.output[k]->FunctionCall_call.name)),
{
    assert(evs.skip(0) =~= evs);
    assert(evs.take(0) =~= Seq::<StreamEventV>::empty());
    lemma_fold_calls(acc_init(), evs, 0);
}

/// A response finalized from a recorded `Stop` (or no signal at all) has
/// finish reason `ToolCalls` exactly when it holds a function call; an
/// explicit `ToolCalls` signal stands even without one.
pub proof fn lemma_tool_calls_iff(a: AccumV)
    requires
        a.finish !== Some(FinishReason::Length),
        a.finish !== Some(FinishReason::ContentFilter),
    ensures
        finalized(a).finish_reason == FinishReason::ToolCalls <==> (calls_of(a.items).len() > 0
            || a.finish == Some(FinishReason::ToolCalls)),
{
    lemma_has_call_iff_calls_of(a.items);
}

} // verus!
