//! Complete responses: the ordered output-item list and its views.

use vstd::prelude::*;

use crate::types::{FinishReason, FunctionCall, FunctionCallV, InputItem, InputItemV, Message,
    MessageV, Role, Usage, UsageV};

verus! {

/// An item in the LLM response output.
#[derive(Debug, Clone)]
pub enum OutputItem {
    /// Text content.
    Text { content: String },
    /// A completed function call.
    FunctionCall { call: FunctionCall },
}

/// Abstract value of an `OutputItem`.
pub enum OutputItemV {
    Text { content: Seq<char> },
    FunctionCall { call: FunctionCallV },
}

impl View for OutputItem {
    type V = OutputItemV;

    open spec fn view(&self) -> OutputItemV {
        match self {
            OutputItem::Text { content } => OutputItemV::Text { content: content@ },
            OutputItem::FunctionCall { call } => OutputItemV::FunctionCall { call: call@ },
        }
    }
}

impl DeepView for OutputItem {
    type V = OutputItemV;

    open spec fn deep_view(&self) -> OutputItemV {
        self@
    }
}

/// The concatenation of all text contents of `items`, in order.
pub open spec fn text_of(items: Seq<OutputItemV>) -> Seq<char>
    decreases items.len(),
{
    if items.len() == 0 {
        Seq::<char>::empty()
    } else {
        (match items[0] {
            OutputItemV::Text { content } => content,
            OutputItemV::FunctionCall { .. } => Seq::<char>::empty(),
        }) + text_of(items.drop_first())
    }
}

/// The function calls of `items`, in order.
pub open spec fn calls_of(items: Seq<OutputItemV>) -> Seq<FunctionCallV>
    decreases items.len(),
{
    if items.len() == 0 {
        Seq::<FunctionCallV>::empty()
    } else {
        (match items[0] {
            OutputItemV::Text { .. } => Seq::<FunctionCallV>::empty(),
            OutputItemV::FunctionCall { call } => seq![call],
        }) + calls_of(items.drop_first())
    }
}

/// The input item that stands for one output item in a follow-up request:
/// text becomes an assistant message, a function call carries over.
pub open spec fn input_item_of(item: OutputItemV) -> InputItemV {
    match item {
        OutputItemV::Text { content } => InputItemV::Message(
            MessageV { role: Role::Assistant, content },
        ),
        OutputItemV::FunctionCall { call } => InputItemV::FunctionCall(call),
    }
}

/// The input items that stand for a whole output list, order preserved.
pub open spec fn items_of_output(items: Seq<OutputItemV>) -> Seq<InputItemV> {
    items.map_values(|item: OutputItemV| input_item_of(item))
}

impl OutputItem {
    /// Convert this output item to an input item. Text items become
    /// assistant messages, function calls carry over.
    pub fn to_input_item(&self) -> (r: InputItem)
        ensures
            r@ == input_item_of(self@),
    {
        match self {
            OutputItem::Text { content } => InputItem::Message(Message {
                role: Role::Assistant,
                content: content.clone(),
            }),
            OutputItem::FunctionCall { call } => InputItem::FunctionCall(call.duplicate()),
        }
    }
}

/// A complete response from an LLM provider.
#[derive(Debug, Clone)]
pub struct CompleteResponse {
    /// Ordered sequence of output items (text and function calls).
    pub output: Vec<OutputItem>,
    pub finish_reason: FinishReason,
    pub usage: Usage,
}

/// Abstract value of a `CompleteResponse`.
pub struct CompleteResponseV {
    pub output: Seq<OutputItemV>,
    pub finish_reason: FinishReason,
    pub usage: UsageV,
}

impl View for CompleteResponse {
    type V = CompleteResponseV;

    open spec fn view(&self) -> CompleteResponseV {
        CompleteResponseV {
            output: self.output.deep_view(),
            finish_reason: self.finish_reason,
            usage: self.usage@,
        }
    }
}

impl CompleteResponse {
    /// Get all text content concatenated together, in order.
    pub fn content(&self) -> (r: String)
        ensures
            r@ == text_of(self@.output),
    {
        let ghost all = self@.output;
        let mut r = String::new();
        let n = self.output.len();
        assert(all.skip(0) =~= all);
        for i in 0..n
            invariant
                n == self.output.len(),
                all == self@.output,
                text_of(all) =~= r@ + text_of(all.skip(i as int)),
        {
            match &self.output[i] {
                OutputItem::Text { content } => {
                    r.append(content.as_str());
                },
                OutputItem::FunctionCall { .. } => {},
            }
            assert(all.skip(i as int).drop_first() =~= all.skip(i + 1));
        }
        assert(all.skip(n as int) =~= Seq::<OutputItemV>::empty());
        r
    }

    /// Get all function calls in order.
    pub fn function_calls(&self) -> (r: Vec<FunctionCall>)
        ensures
            r.deep_view() == calls_of(self@.output),
    {
        let ghost all = self@.output;
        let mut r: Vec<FunctionCall> = Vec::new();
        let n = self.output.len();
        assert(all.skip(0) =~= all);
        for i in 0..n
            invariant
                n == self.output.len(),
                all == self@.output,
                calls_of(all) =~= r.deep_view() + calls_of(all.skip(i as int)),
        {
            match &self.output[i] {
                OutputItem::Text { .. } => {},
                OutputItem::FunctionCall { call } => {
                    r.push(call.duplicate());
                },
            }
            assert(all.skip(i as int).drop_first() =~= all.skip(i + 1));
        }
        assert(all.skip(n as int) =~= Seq::<OutputItemV>::empty());
        assert(r.deep_view() =~= calls_of(all));
        r
    }

    /// Convert this response to a sequence of input items, preserving the
    /// ordering of text and function calls.
    pub fn to_items(&self) -> (r: Vec<InputItem>)
        ensures
            r.deep_view() == items_of_output(self@.output),
    {
        let mut r: Vec<InputItem> = Vec::new();
        let n = self.output.len();
        for i in 0..n
            invariant
                n == self.output.len(),
                r.deep_view() =~= items_of_output(self@.output.take(i as int)),
        {
            let item = self.output[i].to_input_item();
            let ghost prev = r.deep_view();
            r.push(item);
            proof {
                assert(r.deep_view() =~= prev.push(item@));
                assert(items_of_output(self@.output.take(i + 1)) =~= prev.push(item@));
            }
        }
        assert(self@.output.take(n as int) =~= self@.output);
        r
    }
}

} // verus!
