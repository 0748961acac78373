//! Reading the model's response and carrying a chat turn through the call
//! to the model.

use crate::conversation::{attributed, parts_of, ChatMessage, ContentItem, Part, Role, Turn};
use crate::openai_schema::{
    first_output_text, output_text, outputs_of, response_text, text_of, MessageOutput,
    OpenAiResponse, OutputItem, ResponsesRequest, ResponsesUsage, STATUS_COMPLETED,
};
use crate::state::BotState;
use crate::text::str_equal;
use vstd::prelude::*;

verus! {

/// Why no reply text came out of a call to the model.
#[derive(Debug)]
pub enum LlmError {
    /// The model could not be reached; `detail` says why.
    Transport { detail: String },
    /// The model was reached and refused; `detail` is what it answered.
    Api { detail: String },
    /// The response held no completed message with output text.
    NoValidText,
}

/// What is said of a response without usable text.
pub const NO_VALID_TEXT: &'static str = "No valid text response from OpenAI";

/// The start of what is said of a call that the model refused.
pub const API_ERROR_PREFIX: &'static str = "OpenAI API error: ";

/// The start of the reply that tells a user of a failed call.
pub const ERROR_REPLY_PREFIX: &'static str =
    "Sorry, I couldn't get a response from OpenAI at the moment. Error: ";

/// What an error says of itself.
pub open spec fn error_message(e: LlmError) -> Seq<char> {
    match e {
        LlmError::Transport { detail } => detail@,
        LlmError::Api { detail } => API_ERROR_PREFIX@ + detail@,
        LlmError::NoValidText => NO_VALID_TEXT@,
    }
}

/// The reply that tells a user that the model could not be reached.
pub open spec fn error_reply(detail: Seq<char>) -> Seq<char> {
    ERROR_REPLY_PREFIX@ + detail
}

/// The user turn that a message from `name` saying `content` becomes.
pub open spec fn user_turn(name: Seq<char>, content: Seq<char>) -> Turn {
    Turn { role: Role::User, content: seq![Part::InputText(attributed(name, content))] }
}

/// The assistant turn that a reply of the model becomes.
pub open spec fn assistant_turn(text: Seq<char>) -> Turn {
    Turn { role: Role::Assistant, content: seq![Part::OutputText(text)] }
}

impl LlmError {
    /// What this error says of itself.
    pub fn message(&self) -> (r: String)
        ensures
            r@ == error_message(*self),
    {
        match self {
            LlmError::Transport { detail } => detail.clone(),
            LlmError::Api { detail } => {
                let mut r = API_ERROR_PREFIX.to_owned();
                r.append(detail.as_str());
                r
            },
            LlmError::NoValidText => NO_VALID_TEXT.to_owned(),
        }
    }
}

/// The first piece of output text among `content`.
pub fn find_output_text(content: &Vec<ContentItem>) -> (r: Option<String>)
    ensures
        text_of(r) == first_output_text(parts_of(content@)),
{
    let ghost parts = parts_of(content@);
    let mut i: usize = 0;
    assert(parts.skip(0) =~= parts);
    while i < content.len()
        invariant
            0 <= i <= content.len(),
            parts == parts_of(content@),
            first_output_text(parts) == first_output_text(parts.skip(i as int)),
        decreases content.len() - i,
    {
        proof {
            assert(parts.skip(i as int)[0] == parts[i as int]);
            assert(parts.skip(i as int).drop_first() =~= parts.skip(i + 1));
        }
        if let ContentItem::OutputText { text } = &content[i] {
            return Some(text.clone());
        }
        i = i + 1;
    }
    assert(parts.skip(i as int).len() == 0);
    None
}

/// The text that one message offers.
pub fn message_text(message: &MessageOutput) -> (r: Option<String>)
    ensures
        text_of(r) == output_text(OutputItem::Message(*message)@),
{
    if !str_equal(message.status.as_str(), STATUS_COMPLETED) {
        return None;
    }
    find_output_text(&message.content)
}

/// The text of a response: the first output text of the first completed
/// message that has any.
pub fn extract_response_text(output: &Vec<OutputItem>) -> (r: Option<String>)
    ensures
        text_of(r) == response_text(outputs_of(output@)),
{
    let ghost items = outputs_of(output@);
    let mut i: usize = 0;
    assert(items.skip(0) =~= items);
    while i < output.len()
        invariant
            0 <= i <= output.len(),
            items == outputs_of(output@),
            response_text(items) == response_text(items.skip(i as int)),
        decreases output.len() - i,
    {
        proof {
            assert(items.skip(i as int)[0] == items[i as int]);
            assert(items.skip(i as int).drop_first() =~= items.skip(i + 1));
        }
        if let OutputItem::Message(message) = &output[i] {
            if let Some(text) = message_text(message) {
                return Some(text);
            }
        }
        i = i + 1;
    }
    assert(items.skip(i as int).len() == 0);
    None
}

/// Reads a decoded response: its text and its token usage, or the error
/// that it holds no usable text.
pub fn process_openai_response(response: &OpenAiResponse) -> (r: Result<
    (String, ResponsesUsage),
    LlmError,
>)
    ensures
        match response_text(outputs_of(response.output@)) {
            Some(text) => r is Ok && r.unwrap().0@ == text && r.unwrap().1 == response.usage,
            None => r == Err::<(String, ResponsesUsage), LlmError>(LlmError::NoValidText),
        },
{
    match extract_response_text(&response.output) {
        Some(content) => Ok((content, response.usage)),
        None => Err(LlmError::NoValidText),
    }
}

/// Starts a chat turn: the user's message goes into the channel's history,
/// and the request to send is the model in use with the channel's
/// transcript, which ends with that message.
pub fn begin_chat_turn(state: &mut BotState, channel_id: u64, content: String, name: String) -> (r:
    ResponsesRequest)
    ensures
        final(state)@ == old(state)@.append(channel_id, user_turn(name@, content@)),
        r.model@ == final(state)@.current_model,
        r.transcript() == final(state)@.transcript(channel_id),
{
    state.add_message(channel_id, ChatMessage::user(content, name));
    let history = state.get_conversation(channel_id);
    ResponsesRequest::new(state.get_current_model(), history)
}

/// Ends a chat turn. A reply of the model goes into the channel's history
/// as an assistant turn and is what the user is told. After a failed call
/// the state stays as it was, with the user's turn in it, and the user is
/// told of the error.
pub fn finish_chat_turn(state: &mut BotState, channel_id: u64, result: Result<String, LlmError>)
    -> (reply: String)
    ensures
        match result {
            Ok(text) => final(state)@ == old(state)@.append(channel_id, assistant_turn(text@))
                && reply@ == text@,
            Err(e) => final(state)@ == old(state)@ && reply@ == error_reply(error_message(e)),
        },
{
    match result {
        Ok(text) => {
            state.add_message(channel_id, ChatMessage::assistant(text.clone()));
            text
        },
        Err(e) => {
            let mut reply = ERROR_REPLY_PREFIX.to_owned();
            reply.append(e.message().as_str());
            reply
        },
    }
}

} // verus!
