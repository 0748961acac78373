//! The shapes of a request to the language model and of its response.

use crate::conversation::{parts_of, turns_of, ChatMessage, ContentItem, Part, Turn};
use vstd::prelude::*;

verus! {

/// A request: the model to ask and the transcript to show it.
#[derive(Debug)]
pub struct ResponsesRequest {
    pub model: String,
    pub input: Vec<ChatMessage>,
}

/// A response of the language model.
#[derive(Debug)]
pub struct OpenAiResponse {
    pub id: String,
    pub output: Vec<OutputItem>,
    pub usage: ResponsesUsage,
}

/// One item of a response's output.
#[derive(Debug)]
pub enum OutputItem {
    /// A message of the assistant.
    Message(MessageOutput),
    /// An item of a kind that is not understood.
    Other,
}

/// A message in a response's output.
#[derive(Debug)]
pub struct MessageOutput {
    pub id: String,
    pub status: String,
    pub role: String,
    pub content: Vec<ContentItem>,
}

/// How many tokens a request and its response took.
#[derive(Copy, Clone, Debug)]
pub struct ResponsesUsage {
    pub input_tokens: u32,
    pub input_tokens_details: InputTokensDetails,
    pub output_tokens: u32,
    pub output_tokens_details: OutputTokensDetails,
    pub total_tokens: u32,
}

/// The part of the input tokens that came from a cache.
#[derive(Copy, Clone, Debug)]
pub struct InputTokensDetails {
    pub cached_tokens: u32,
}

/// The part of the output tokens that was spent on reasoning.
#[derive(Copy, Clone, Debug)]
pub struct OutputTokensDetails {
    pub reasoning_tokens: u32,
}

/// The mathematical value of an output item: for a message its status and
/// its content; nothing for any other item.
pub enum Output {
    Message { status: Seq<char>, content: Seq<Part> },
    Other,
}

impl View for OutputItem {
    type V = Output;

    open spec fn view(&self) -> Output {
        match self {
            OutputItem::Message(m) => Output::Message {
                status: m.status@,
                content: parts_of(m.content@),
            },
            OutputItem::Other => Output::Other,
        }
    }
}

/// The values of a sequence of output items.
pub open spec fn outputs_of(items: Seq<OutputItem>) -> Seq<Output> {
    Seq::new(items.len(), |i: int| items[i]@)
}

/// The status of a message that the model has finished.
pub const STATUS_COMPLETED: &'static str = "completed";

/// The first piece of output text among `parts`, if there is one.
pub open spec fn first_output_text(parts: Seq<Part>) -> Option<Seq<char>>
    decreases parts.len(),
{
    if parts.len() == 0 {
        None
    } else {
        match parts[0] {
            Part::OutputText(text) => Some(text),
            _ => first_output_text(parts.drop_first()),
        }
    }
}

/// The text that one output item offers: the first output text of a
/// completed message; nothing from a message in another status nor from any
/// other item.
pub open spec fn output_text(item: Output) -> Option<Seq<char>> {
    match item {
        Output::Message { status, content } => if status == STATUS_COMPLETED@ {
            first_output_text(content)
        } else {
            None
        },
        Output::Other => None,
    }
}

/// The text of a response: what the first item that offers any offers.
pub open spec fn response_text(items: Seq<Output>) -> Option<Seq<char>>
    decreases items.len(),
{
    if items.len() == 0 {
        None
    } else {
        match output_text(items[0]) {
            Some(text) => Some(text),
            None => response_text(items.drop_first()),
        }
    }
}

/// The value of an optional string.
pub open spec fn text_of(s: Option<String>) -> Option<Seq<char>> {
    match s {
        Some(s) => Some(s@),
        None => None,
    }
}

impl ResponsesRequest {
    /// A request that shows `messages` to `model`.
    pub fn new(model: String, messages: Vec<ChatMessage>) -> (r: Self)
        ensures
            r.model@ == model@,
            turns_of(r.input@) == turns_of(messages@),
            r.input == messages,
    {
        ResponsesRequest { model, input: messages }
    }

    /// The transcript of this request.
    pub open spec fn transcript(&self) -> Seq<Turn> {
        turns_of(self.input@)
    }
}

} // verus!
