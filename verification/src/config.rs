//! Request structure and per-provider connection settings.

use vstd::prelude::*;

use crate::prompt::Prompt;
use crate::types::{InputItem, InputItemV, Tool, ToolV};

verus! {

/// Connection settings for one LLM provider.
#[derive(Debug, Clone)]
pub enum ProviderConfig {
    OpenAI { api_key: String },
    Gemini { project_id: String, location: String },
    AnthropicVertex { project_id: String, location: String },
}

/// A request to an LLM provider. Sampling knobs are absent-or-set; absent
/// means "provider default". `temperature` and `top_p` are in thousandths
/// (1000 stands for 1.0), the penalties in signed thousandths.
#[derive(Debug, Clone)]
pub struct LLMRequest {
    pub model: String,
    pub messages: Vec<InputItem>,
    pub temperature: Option<u32>,
    pub max_tokens: Option<u32>,
    pub top_p: Option<u32>,
    pub stop: Option<Vec<String>>,
    pub presence_penalty: Option<i32>,
    pub frequency_penalty: Option<i32>,
    pub tools: Option<Vec<Tool>>,
}

/// Abstract value of an `LLMRequest`.
pub struct LLMRequestV {
    pub model: Seq<char>,
    pub messages: Seq<InputItemV>,
    pub temperature: Option<u32>,
    pub max_tokens: Option<u32>,
    pub top_p: Option<u32>,
    pub stop: Option<Seq<Seq<char>>>,
    pub presence_penalty: Option<i32>,
    pub frequency_penalty: Option<i32>,
    pub tools: Option<Seq<ToolV>>,
}

impl View for LLMRequest {
    type V = LLMRequestV;

    open spec fn view(&self) -> LLMRequestV {
        LLMRequestV {
            model: self.model@,
            messages: self.messages.deep_view(),
            temperature: self.temperature,
            max_tokens: self.max_tokens,
            top_p: self.top_p,
            stop: match self.stop {
                Some(ref v) => Some(v.deep_view()),
                None => None,
            },
            presence_penalty: self.presence_penalty,
            frequency_penalty: self.frequency_penalty,
            tools: match self.tools {
                Some(ref v) => Some(v.deep_view()),
                None => None,
            },
        }
    }
}

impl LLMRequest {
    /// Create a new request with required fields; every knob is absent.
    pub fn new(model: &str, messages: Vec<InputItem>) -> (r: LLMRequest)
        ensures
            r@.model == model@,
            r@.messages == messages.deep_view(),
            r@.temperature is None,
            r@.max_tokens is None,
            r@.top_p is None,
            r@.stop is None,
            r@.presence_penalty is None,
            r@.frequency_penalty is None,
            r@.tools is None,
    {
        LLMRequest {
            model: String::from_str(model),
            messages,
            temperature: None,
            max_tokens: None,
            top_p: None,
            stop: None,
            presence_penalty: None,
            frequency_penalty: None,
            tools: None,
        }
    }

    /// Create a new request from a prompt.
    pub fn from_prompt(model: &str, prompt: &Prompt) -> (r: LLMRequest)
        ensures
            r@.model == model@,
            r@.messages == prompt@,
            r@.temperature is None,
            r@.max_tokens is None,
            r@.top_p is None,
            r@.stop is None,
            r@.presence_penalty is None,
            r@.frequency_penalty is None,
            r@.tools is None,
    {
        let items = prompt.items();
        let n = items.len();
        let mut messages: Vec<InputItem> = Vec::new();
        let mut i: usize = 0;
        while i < n
            invariant
                n == items.len(),
                items.deep_view() == prompt@,
                0 <= i <= n,
                messages.deep_view() =~= prompt@.take(i as int),
            decreases n - i,
        {
            let ghost before = messages.deep_view();
            messages.push(crate::prompt::duplicate_item(&items[i]));
            proof {
                assert(messages.deep_view() =~= before.push(prompt@[i as int]));
                assert(before.push(prompt@[i as int]) =~= prompt@.take(i + 1));
            }
            i = i + 1;
        }
        proof {
            assert(prompt@.take(n as int) =~= prompt@);
        }
        LLMRequest::new(model, messages)
    }

    /// Set the temperature (randomness) knob, in thousandths.
    pub fn temperature(self, temperature: u32) -> (r: LLMRequest)
        ensures
            r@ == (LLMRequestV { temperature: Some(temperature), ..self@ }),
    {
        LLMRequest { temperature: Some(temperature), ..self }
    }

    /// Set the maximum number of tokens to generate.
    pub fn max_tokens(self, max_tokens: u32) -> (r: LLMRequest)
        ensures
            r@ == (LLMRequestV { max_tokens: Some(max_tokens), ..self@ }),
    {
        LLMRequest { max_tokens: Some(max_tokens), ..self }
    }

    /// Set the top_p (nucleus sampling) knob, in thousandths.
    pub fn top_p(self, top_p: u32) -> (r: LLMRequest)
        ensures
            r@ == (LLMRequestV { top_p: Some(top_p), ..self@ }),
    {
        LLMRequest { top_p: Some(top_p), ..self }
    }

    /// Set stop sequences.
    pub fn stop(self, stop: Vec<String>) -> (r: LLMRequest)
        ensures
            r@ == (LLMRequestV { stop: Some(stop.deep_view()), ..self@ }),
    {
        LLMRequest { stop: Some(stop), ..self }
    }

    /// Set the presence penalty, in signed thousandths.
    pub fn presence_penalty(self, presence_penalty: i32) -> (r: LLMRequest)
        ensures
            r@ == (LLMRequestV { presence_penalty: Some(presence_penalty), ..self@ }),
    {
        LLMRequest { presence_penalty: Some(presence_penalty), ..self }
    }

    /// Set the frequency penalty, in signed thousandths.
    pub fn frequency_penalty(self, frequency_penalty: i32) -> (r: LLMRequest)
        ensures
            r@ == (LLMRequestV { frequency_penalty: Some(frequency_penalty), ..self@ }),
    {
        LLMRequest { frequency_penalty: Some(frequency_penalty), ..self }
    }

    /// Set the tools offered for function calling.
    pub fn tools(self, tools: Vec<Tool>) -> (r: LLMRequest)
        ensures
            r@ == (LLMRequestV { tools: Some(tools.deep_view()), ..self@ }),
    {
        LLMRequest { tools: Some(tools), ..self }
    }
}

} // verus!
