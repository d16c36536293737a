//! Core data model: roles, messages, tool calls, canonical stream events.

use vstd::prelude::*;

verus! {

/// Role of a message participant.
#[derive(Debug, Clone, Copy, PartialEq, Eq, Structural)]
pub enum Role {
    System,
    User,
    Assistant,
}

/// A message with role and plain text content.
#[derive(Debug, Clone)]
pub struct Message {
    pub role: Role,
    pub content: String,
}

/// Abstract value of a `Message`.
pub struct MessageV {
    pub role: Role,
    pub content: Seq<char>,
}

impl View for Message {
    type V = MessageV;

    open spec fn view(&self) -> MessageV {
        MessageV { role: self.role, content: self.content@ }
    }
}

impl DeepView for Message {
    type V = MessageV;

    open spec fn deep_view(&self) -> MessageV {
        self@
    }
}

/// Function call information. `arguments` holds JSON text; it is never
/// parsed into a richer value at this layer. `call_id` correlates a
/// subsequent tool result.
#[derive(Debug, Clone, PartialEq)]
pub struct FunctionCall {
    pub id: String,
    pub call_id: String,
    pub name: String,
    pub arguments: String,
}

/// Abstract value of a `FunctionCall`.
pub struct FunctionCallV {
    pub id: Seq<char>,
    pub call_id: Seq<char>,
    pub name: Seq<char>,
    pub arguments: Seq<char>,
}

impl View for FunctionCall {
    type V = FunctionCallV;

    open spec fn view(&self) -> FunctionCallV {
        FunctionCallV {
            id: self.id@,
            call_id: self.call_id@,
            name: self.name@,
            arguments: self.arguments@,
        }
    }
}

impl DeepView for FunctionCall {
    type V = FunctionCallV;

    open spec fn deep_view(&self) -> FunctionCallV {
        self@
    }
}

impl FunctionCall {
    /// A field-by-field copy whose abstract value equals this one.
    pub fn duplicate(&self) -> (r: FunctionCall)
        ensures
            r@ == self@,
    {
        FunctionCall {
            id: self.id.clone(),
            call_id: self.call_id.clone(),
            name: self.name.clone(),
            arguments: self.arguments.clone(),
        }
    }
}

/// An input item in a conversation (mirrors `OutputItem`).
#[derive(Debug, Clone)]
pub enum InputItem {
    /// A message with role and content.
    Message(Message),
    /// A function call made by the model.
    FunctionCall(FunctionCall),
    /// Output from a function call, correlated by `call_id`.
    FunctionCallOutput { call_id: String, output: String },
}

/// Abstract value of an `InputItem`.
pub enum InputItemV {
    Message(MessageV),
    FunctionCall(FunctionCallV),
    FunctionCallOutput { call_id: Seq<char>, output: Seq<char> },
}

impl View for InputItem {
    type V = InputItemV;

    open spec fn view(&self) -> InputItemV {
        match self {
            InputItem::Message(m) => InputItemV::Message(m@),
            InputItem::FunctionCall(c) => InputItemV::FunctionCall(c@),
            InputItem::FunctionCallOutput { call_id, output } => InputItemV::FunctionCallOutput {
                call_id: call_id@,
                output: output@,
            },
        }
    }
}

impl DeepView for InputItem {
    type V = InputItemV;

    open spec fn deep_view(&self) -> InputItemV {
        self@
    }
}

impl InputItem {
    /// Create a system message.
    pub fn system(content: &str) -> (r: InputItem)
        ensures
            r@ == InputItemV::Message(MessageV { role: Role::System, content: content@ }),
    {
        InputItem::Message(Message { role: Role::System, content: String::from_str(content) })
    }

    /// Create a user message.
    pub fn user(content: &str) -> (r: InputItem)
        ensures
            r@ == InputItemV::Message(MessageV { role: Role::User, content: content@ }),
    {
        InputItem::Message(Message { role: Role::User, content: String::from_str(content) })
    }

    /// Create an assistant message.
    pub fn assistant(content: &str) -> (r: InputItem)
        ensures
            r@ == InputItemV::Message(MessageV { role: Role::Assistant, content: content@ }),
    {
        InputItem::Message(Message { role: Role::Assistant, content: String::from_str(content) })
    }

    /// Create a function call item.
    pub fn function_call(call: FunctionCall) -> (r: InputItem)
        ensures
            r@ == InputItemV::FunctionCall(call@),
    {
        InputItem::FunctionCall(call)
    }

    /// Create a function call output item.
    pub fn function_call_output(call_id: String, output: String) -> (r: InputItem)
        ensures
            r@ == (InputItemV::FunctionCallOutput { call_id: call_id@, output: output@ }),
    {
        InputItem::FunctionCallOutput { call_id, output }
    }

    /// Get the role of this item (if it is a message).
    pub fn role(&self) -> (r: Option<Role>)
        ensures
            r == (match self@ {
                InputItemV::Message(m) => Some(m.role),
                _ => None::<Role>,
            }),
    {
        match self {
            InputItem::Message(msg) => Some(msg.role),
            _ => None,
        }
    }

    /// Get the text content of this item (if any). An empty message body
    /// counts as no content.
    pub fn content(&self) -> (r: Option<String>)
        ensures
            (match self@ {
                InputItemV::Message(m) => if m.content.len() == 0 {
                    r is None
                } else {
                    r matches Some(s) && s@ == m.content
                },
                InputItemV::FunctionCallOutput { output, .. } => {
                    r matches Some(s) && s@ == output
                },
                InputItemV::FunctionCall(_) => r is None,
            }),
    {
        match self {
            InputItem::Message(msg) => {
                if msg.content.as_str().is_empty() {
                    None
                } else {
                    Some(msg.content.clone())
                }
            },
            InputItem::FunctionCallOutput { output, .. } => Some(output.clone()),
            InputItem::FunctionCall(_) => None,
        }
    }

    /// Get the function call from this item (if any).
    pub fn get_function_call(&self) -> (r: Option<&FunctionCall>)
        ensures
            (match self@ {
                InputItemV::FunctionCall(c) => r matches Some(x) && x@ == c,
                _ => r is None,
            }),
    {
        match self {
            InputItem::FunctionCall(call) => Some(call),
            _ => None,
        }
    }

    /// Get the function call ID from this item (if any).
    pub fn function_call_id(&self) -> (r: Option<&str>)
        ensures
            (match self@ {
                InputItemV::FunctionCallOutput { call_id, .. } => {
                    r matches Some(s) && s@ == call_id
                },
                _ => r is None,
            }),
    {
        match self {
            InputItem::FunctionCallOutput { call_id, .. } => Some(call_id.as_str()),
            _ => None,
        }
    }
}

impl Message {
    /// Create a new message with role and text content.
    pub fn new(role: Role, content: String) -> (r: Message)
        ensures
            r@ == (MessageV { role, content: content@ }),
    {
        Message { role, content }
    }

    /// Add text content to this message, separated by a space when the
    /// message already holds text.
    pub fn with_text(self, text: &str) -> (r: Message)
        ensures
            r.role == self.role,
            self@.content.len() == 0 ==> r@.content == text@,
            self@.content.len() > 0 ==> r@.content == self@.content + seq![' '] + text@,
    {
        let mut content = self.content;
        if !content.as_str().is_empty() {
            content.append(" ");
            proof {
                reveal_strlit(" ");
                assert(" "@ =~= seq![' ']);
            }
        }
        content.append(text);
        Message { role: self.role, content }
    }

    /// Get all text content.
    pub fn text_content(&self) -> (r: String)
        ensures
            r@ == self@.content,
    {
        self.content.clone()
    }

    /// Create a system message.
    pub fn system(content: &str) -> (r: Message)
        ensures
            r@ == (MessageV { role: Role::System, content: content@ }),
    {
        Message { role: Role::System, content: String::from_str(content) }
    }

    /// Create a user message.
    pub fn user(content: &str) -> (r: Message)
        ensures
            r@ == (MessageV { role: Role::User, content: content@ }),
    {
        Message { role: Role::User, content: String::from_str(content) }
    }

    /// Create an assistant message.
    pub fn assistant(content: &str) -> (r: Message)
        ensures
            r@ == (MessageV { role: Role::Assistant, content: content@ }),
    {
        Message { role: Role::Assistant, content: String::from_str(content) }
    }

    /// Get the role of this message.
    pub fn role(&self) -> (r: Role)
        ensures
            r == self@.role,
    {
        self.role
    }

    /// Get the text content of this message, or `None` when it is empty.
    pub fn content(&self) -> (r: Option<String>)
        ensures
            self@.content.len() == 0 ==> r is None,
            self@.content.len() > 0 ==> (r matches Some(s) && s@ == self@.content),
    {
        if self.content.as_str().is_empty() {
            None
        } else {
            Some(self.content.clone())
        }
    }
}

/// An input item with the field that no provider wire carries (the
/// provider-side item id of a function call) cleared; round trips
/// through a wire format preserve items up to this.
pub open spec fn scrub_item(item: InputItemV) -> InputItemV {
    match item {
        InputItemV::FunctionCall(c) => InputItemV::FunctionCall(
            FunctionCallV { id: Seq::empty(), ..c },
        ),
        _ => item,
    }
}

/// The item list with provider-side item ids cleared.
pub open spec fn scrub_items(items: Seq<InputItemV>) -> Seq<InputItemV> {
    items.map_values(|it: InputItemV| scrub_item(it))
}

/// Whether a system message stands anywhere but first. The wires hoist
/// the system text to a top-level field, so only a history whose one
/// system turn comes first can read back in order.
pub open spec fn system_only_first(items: Seq<InputItemV>) -> bool {
    forall|i: int|
        0 < i < items.len() ==> !((#[trigger] items[i]) matches InputItemV::Message(m) && m.role
            == Role::System)
}

/// Type of tool.
#[derive(Debug, Clone, Copy, PartialEq, Eq, Structural)]
pub enum ToolType {
    Function,
}

/// Function definition offered to the model. `parameters` holds the JSON
/// Schema as text.
#[derive(Debug, Clone)]
pub struct Function {
    pub name: String,
    pub description: String,
    pub parameters: String,
}

/// Abstract value of a `Function`.
pub struct FunctionV {
    pub name: Seq<char>,
    pub description: Seq<char>,
    pub parameters: Seq<char>,
}

impl View for Function {
    type V = FunctionV;

    open spec fn view(&self) -> FunctionV {
        FunctionV {
            name: self.name@,
            description: self.description@,
            parameters: self.parameters@,
        }
    }
}

impl DeepView for Function {
    type V = FunctionV;

    open spec fn deep_view(&self) -> FunctionV {
        self@
    }
}

/// Tool definition for function calling.
#[derive(Debug, Clone)]
pub struct Tool {
    pub tool_type: ToolType,
    pub function: Function,
}

/// Abstract value of a `Tool`.
pub struct ToolV {
    pub tool_type: ToolType,
    pub function: FunctionV,
}

impl View for Tool {
    type V = ToolV;

    open spec fn view(&self) -> ToolV {
        ToolV { tool_type: self.tool_type, function: self.function@ }
    }
}

impl DeepView for Tool {
    type V = ToolV;

    open spec fn deep_view(&self) -> ToolV {
        self@
    }
}

/// Reason why generation finished.
#[derive(Debug, Clone, Copy, PartialEq, Eq, Structural)]
pub enum FinishReason {
    Stop,
    Length,
    ToolCalls,
    ContentFilter,
}

/// Token usage counters. Missing wire values default to 0 or `None`.
#[derive(Debug, Clone, PartialEq)]
pub struct Usage {
    pub input_tokens: u32,
    pub output_tokens: u32,
    pub cached_tokens: Option<u32>,
}

/// Abstract value of `Usage`.
pub struct UsageV {
    pub input_tokens: u32,
    pub output_tokens: u32,
    pub cached_tokens: Option<u32>,
}

impl View for Usage {
    type V = UsageV;

    open spec fn view(&self) -> UsageV {
        UsageV {
            input_tokens: self.input_tokens,
            output_tokens: self.output_tokens,
            cached_tokens: self.cached_tokens,
        }
    }
}

impl DeepView for Usage {
    type V = UsageV;

    open spec fn deep_view(&self) -> UsageV {
        self@
    }
}

impl Usage {
    /// The all-zero usage that stands in when a provider reports nothing.
    pub fn zero() -> (r: Usage)
        ensures
            r@ == UsageV::zero(),
    {
        Usage { input_tokens: 0, output_tokens: 0, cached_tokens: None }
    }
}

impl UsageV {
    /// Abstract all-zero usage.
    pub open spec fn zero() -> UsageV {
        UsageV { input_tokens: 0, output_tokens: 0, cached_tokens: None }
    }
}

impl Default for Usage {
    fn default() -> (r: Usage)
        ensures
            r@ == UsageV::zero(),
    {
        Usage::zero()
    }
}

/// Information about an output item being added at the tail of the output
/// sequence.
#[derive(Debug, Clone, PartialEq)]
pub enum OutputItemInfo {
    /// Text output item.
    Text,
    /// Function call output item with name and provider item id.
    FunctionCall { name: String, id: String },
}

/// Abstract value of `OutputItemInfo`.
pub enum OutputItemInfoV {
    Text,
    FunctionCall { name: Seq<char>, id: Seq<char> },
}

impl View for OutputItemInfo {
    type V = OutputItemInfoV;

    open spec fn view(&self) -> OutputItemInfoV {
        match self {
            OutputItemInfo::Text => OutputItemInfoV::Text,
            OutputItemInfo::FunctionCall { name, id } => OutputItemInfoV::FunctionCall {
                name: name@,
                id: id@,
            },
        }
    }
}

impl DeepView for OutputItemInfo {
    type V = OutputItemInfoV;

    open spec fn deep_view(&self) -> OutputItemInfoV {
        self@
    }
}

/// Canonical events emitted while streaming a response.
#[derive(Debug, Clone)]
pub enum StreamEvent {
    /// A chunk of text content was received.
    ContentDelta { delta: String },
    /// A new output item was added (text or function call).
    OutputItemAdded { item: OutputItemInfo },
    /// A function call has completed with full arguments.
    FunctionCallComplete { call: FunctionCall },
    /// The stream has finished; must be the last event of a successful
    /// stream.
    Done { finish_reason: FinishReason, usage: Usage },
    /// A terminal error occurred during streaming.
    Error { error: String },
}

/// Abstract value of a `StreamEvent`.
pub enum StreamEventV {
    ContentDelta { delta: Seq<char> },
    OutputItemAdded { item: OutputItemInfoV },
    FunctionCallComplete { call: FunctionCallV },
    Done { finish_reason: FinishReason, usage: UsageV },
    Error { error: Seq<char> },
}

impl View for StreamEvent {
    type V = StreamEventV;

    open spec fn view(&self) -> StreamEventV {
        match self {
            StreamEvent::ContentDelta { delta } => StreamEventV::ContentDelta { delta: delta@ },
            StreamEvent::OutputItemAdded { item } => StreamEventV::OutputItemAdded { item: item@ },
            StreamEvent::FunctionCallComplete { call } => StreamEventV::FunctionCallComplete {
                call: call@,
            },
            StreamEvent::Done { finish_reason, usage } => StreamEventV::Done {
                finish_reason: *finish_reason,
                usage: usage@,
            },
            StreamEvent::Error { error } => StreamEventV::Error { error: error@ },
        }
    }
}

impl DeepView for StreamEvent {
    type V = StreamEventV;

    open spec fn deep_view(&self) -> StreamEventV {
        self@
    }
}

} // verus!
