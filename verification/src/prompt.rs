//! The prompt builder: composing conversations and appending responses.

use vstd::prelude::*;

use crate::response::{items_of_output, CompleteResponse};
use crate::types::{InputItem, InputItemV, MessageV, Role};

verus! {

/// A structured prompt holding an ordered sequence of input items.
#[derive(Debug, Clone)]
pub struct Prompt {
    items: Vec<InputItem>,
}

impl View for Prompt {
    type V = Seq<InputItemV>;

    closed spec fn view(&self) -> Seq<InputItemV> {
        self.items.deep_view()
    }
}

/// The abstract item of a message with `role` and `content`.
pub open spec fn message_item(role: Role, content: Seq<char>) -> InputItemV {
    InputItemV::Message(MessageV { role, content })
}

impl Prompt {
    /// Create a new empty prompt.
    pub fn new() -> (r: Prompt)
        ensures
            r@ == Seq::<InputItemV>::empty(),
    {
        let r = Prompt { items: Vec::new() };
        proof {
            assert(r@ =~= Seq::<InputItemV>::empty());
        }
        r
    }

    /// Create a prompt holding one system message.
    pub fn system(content: &str) -> (r: Prompt)
        ensures
            r@ =~= seq![message_item(Role::System, content@)],
    {
        Prompt::new().with_system(content)
    }

    /// Create a prompt holding one user message.
    pub fn user(content: &str) -> (r: Prompt)
        ensures
            r@ =~= seq![message_item(Role::User, content@)],
    {
        Prompt::new().with_user(content)
    }

    /// Add a system message.
    pub fn with_system(self, content: &str) -> (r: Prompt)
        ensures
            r@ == self@.push(message_item(Role::System, content@)),
    {
        self.with_item(InputItem::system(content))
    }

    /// Add a user message.
    pub fn with_user(self, content: &str) -> (r: Prompt)
        ensures
            r@ == self@.push(message_item(Role::User, content@)),
    {
        self.with_item(InputItem::user(content))
    }

    /// Add an assistant message.
    pub fn with_assistant(self, content: &str) -> (r: Prompt)
        ensures
            r@ == self@.push(message_item(Role::Assistant, content@)),
    {
        self.with_item(InputItem::assistant(content))
    }

    /// Add one input item.
    pub fn with_item(self, item: InputItem) -> (r: Prompt)
        ensures
            r@ == self@.push(item@),
    {
        let ghost prev = self@;
        let mut items = self.items;
        let ghost iv = item@;
        items.push(item);
        let r = Prompt { items };
        proof {
            assert(r@ =~= prev.push(iv));
        }
        r
    }

    /// Add multiple input items, in order.
    pub fn with_items(self, items: Vec<InputItem>) -> (r: Prompt)
        ensures
            r@ == self@ + items.deep_view(),
    {
        let ghost prev = self@;
        let ghost added = items.deep_view();
        let mut mine = self.items;
        let mut rest = items;
        let n = rest.len();
        let mut i: usize = 0;
        while i < n
            invariant
                n == rest.len(),
                added == rest.deep_view(),
                0 <= i <= n,
                mine.deep_view() =~= prev + added.take(i as int),
            decreases n - i,
        {
            let ghost before = mine.deep_view();
            let it = duplicate_item(&rest[i]);
            mine.push(it);
            proof {
                assert(mine.deep_view() =~= before.push(added[i as int]));
                assert(before.push(added[i as int]) =~= prev + added.take(i + 1));
            }
            i = i + 1;
        }
        proof {
            assert(added.take(n as int) =~= added);
        }
        Prompt { items: mine }
    }

    /// Add a response to the conversation: its output items are appended
    /// in order, text as assistant messages and function calls as
    /// function-call items.
    pub fn with_response(self, response: &CompleteResponse) -> (r: Prompt)
        ensures
            r@ == self@ + items_of_output(response@.output),
    {
        self.with_items(response.to_items())
    }

    /// Get the input items.
    pub fn items(&self) -> (r: &Vec<InputItem>)
        ensures
            r.deep_view() == self@,
    {
        &self.items
    }
}

/// A field-by-field copy of an input item with the same abstract value.
pub fn duplicate_item(item: &InputItem) -> (r: InputItem)
    ensures
        r@ == item@,
{
    match item {
        InputItem::Message(m) => InputItem::Message(crate::types::Message {
            role: m.role,
            content: m.content.clone(),
        }),
        InputItem::FunctionCall(c) => InputItem::FunctionCall(c.duplicate()),
        InputItem::FunctionCallOutput { call_id, output } => InputItem::FunctionCallOutput {
            call_id: call_id.clone(),
            output: output.clone(),
        },
    }
}

impl Default for Prompt {
    fn default() -> (r: Prompt)
        ensures
            r@ == Seq::<InputItemV>::empty(),
    {
        Prompt::new()
    }
}

impl From<&str> for Prompt {
    /// A prompt with one user message.
    fn from(s: &str) -> (r: Prompt)
        ensures
            r@ =~= seq![message_item(Role::User, s@)],
    {
        Prompt::user(s)
    }
}

impl vstd::std_specs::convert::FromSpecImpl<&str> for Prompt {
    open spec fn obeys_from_spec() -> bool {
        false
    }

    open spec fn from_spec(v: &str) -> Prompt {
        arbitrary()
    }
}

impl From<String> for Prompt {
    /// A prompt with one user message.
    fn from(s: String) -> (r: Prompt)
        ensures
            r@ =~= seq![message_item(Role::User, s@)],
    {
        Prompt::user(s.as_str())
    }
}

impl vstd::std_specs::convert::FromSpecImpl<String> for Prompt {
    open spec fn obeys_from_spec() -> bool {
        false
    }

    open spec fn from_spec(v: String) -> Prompt {
        arbitrary()
    }
}

impl From<InputItem> for Prompt {
    /// A prompt with one item.
    fn from(item: InputItem) -> (r: Prompt)
        ensures
            r@ =~= seq![item@],
    {
        Prompt::new().with_item(item)
    }
}

impl vstd::std_specs::convert::FromSpecImpl<InputItem> for Prompt {
    open spec fn obeys_from_spec() -> bool {
        false
    }

    open spec fn from_spec(v: InputItem) -> Prompt {
        arbitrary()
    }
}

impl From<Vec<InputItem>> for Prompt {
    /// A prompt holding exactly the given items.
    fn from(items: Vec<InputItem>) -> (r: Prompt)
        ensures
            r@ == items.deep_view(),
    {
        Prompt { items }
    }
}

impl vstd::std_specs::convert::FromSpecImpl<Vec<InputItem>> for Prompt {
    open spec fn obeys_from_spec() -> bool {
        false
    }

    open spec fn from_spec(v: Vec<InputItem>) -> Prompt {
        arbitrary()
    }
}

} // verus!
