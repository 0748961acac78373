//! The admin command interpreter: a narrow command grammar, one
//! authorization check, and the change that each command makes to the state.

use crate::conversation::{ChatMessage, Part, Role, Turn};
use crate::personality::{
    catalog_listing, has_custom_prefix, parse_persona, persona_name, system_prompt, BotPersonality,
    Persona,
};
use crate::persistence::{change_model, model_changed_reply};
use crate::state::{capped, BotState, State};
use crate::text::{
    all_whitespace, chars_equal, decimal, lemma_trim_empty_iff, lemma_trim_idempotent,
    push_decimal, starts_with, to_chars, trim, trim_str, trimmed_chars, trimmed_rest,
};
use vstd::prelude::*;

verus! {

/// The command that deletes a channel's entry.
pub const TAG_FORGET: &'static str = "<forget>";

/// The prefix of the command that changes the model.
pub const TAG_MODEL: &'static str = "<model>";

/// The command that reports the bot's state.
pub const TAG_STATUS: &'static str = "<status>";

/// The prefix of the command that adds a developer turn.
pub const TAG_DEV: &'static str = "<dev>";

/// The command that shows a channel's personality and, followed by a name,
/// the prefix of the command that binds one.
pub const TAG_PERSONALITY: &'static str = "<personality>";

/// The reply to a command from someone who is not the authorized user.
pub const REPLY_DENIED: &'static str = "You are not admin. Request denied.";

/// The reply that confirms a deleted channel entry.
pub const REPLY_FORGOTTEN: &'static str = "Conversation history has been cleared.";

/// The reply to a model command without a name.
pub const REPLY_MODEL_USAGE: &'static str = "Please specify a model name.";

/// The reply to a developer command without a message.
pub const REPLY_DEV_USAGE: &'static str = "Please specify a developer message.";

/// The reply that confirms an added developer turn.
pub const REPLY_DEV_ADDED: &'static str = "Developer message added to conversation history.";

/// The reply to a personality command with a blank name.
pub const REPLY_PERSONALITY_USAGE: &'static str = "Please specify a personality name.";

/// The reply to a custom personality without a prompt.
pub const REPLY_CUSTOM_USAGE: &'static str = "Please provide a system prompt after 'custom'.";

/// A recognized admin command with its argument.
#[derive(Debug)]
pub enum AdminCommand {
    Forget,
    Model(String),
    Status,
    DevMessage(String),
    GetPersonality,
    SetPersonality(String),
}

/// The mathematical value of an admin command.
pub enum Command {
    Forget,
    Model(Seq<char>),
    Status,
    DevMessage(Seq<char>),
    GetPersonality,
    SetPersonality(Seq<char>),
}

impl View for AdminCommand {
    type V = Command;

    open spec fn view(&self) -> Command {
        match self {
            AdminCommand::Forget => Command::Forget,
            AdminCommand::Model(name) => Command::Model(name@),
            AdminCommand::Status => Command::Status,
            AdminCommand::DevMessage(text) => Command::DevMessage(text@),
            AdminCommand::GetPersonality => Command::GetPersonality,
            AdminCommand::SetPersonality(name) => Command::SetPersonality(name@),
        }
    }
}

/// What a handled command leaves behind: the reply to send, and whether the
/// state changed and has to be saved before the reply goes out.
#[derive(Debug)]
pub struct CommandReply {
    pub text: String,
    pub persist: bool,
}

/// What became of one inbound message.
#[derive(Debug)]
pub enum CommandOutcome {
    /// The message is no command: it goes on to the model as a chat turn.
    NotCommand,
    /// A command from someone who may not give it: consumed, nothing
    /// changed, the denial is the reply.
    Denied { reply: String },
    /// A command from the authorized user, carried out.
    Handled { reply: String, persist: bool },
}

/// The value of an optional command.
pub open spec fn command_of(c: Option<AdminCommand>) -> Option<Command> {
    match c {
        Some(c) => Some(c@),
        None => None,
    }
}

/// The text that follows a tag of `tag_len` characters in `t`, trimmed.
pub open spec fn argument_after(t: Seq<char>, tag: Seq<char>) -> Seq<char> {
    trim(t.skip(tag.len() as int))
}

/// The command that a message's content is, if it is one. The content is
/// trimmed first; the literal commands must then match exactly, the others
/// by their prefix, tried in this order.
pub open spec fn parse_command(content: Seq<char>) -> Option<Command> {
    let t = trim(content);
    if t == TAG_FORGET@ {
        Some(Command::Forget)
    } else if TAG_MODEL@.is_prefix_of(t) {
        Some(Command::Model(argument_after(t, TAG_MODEL@)))
    } else if t == TAG_STATUS@ {
        Some(Command::Status)
    } else if TAG_DEV@.is_prefix_of(t) {
        Some(Command::DevMessage(argument_after(t, TAG_DEV@)))
    } else if t == TAG_PERSONALITY@ {
        Some(Command::GetPersonality)
    } else if TAG_PERSONALITY@.is_prefix_of(t) {
        Some(Command::SetPersonality(argument_after(t, TAG_PERSONALITY@)))
    } else {
        None
    }
}

/// The state after a command and what is replied.
pub struct Step {
    pub state: State,
    pub reply: Seq<char>,
    pub persist: bool,
}

/// The status report for a channel.
pub open spec fn status_reply(st: State, channel: u64) -> Seq<char> {
    "**Bot Status**\n- Current model: `"@ + st.current_model + "`\n- Current personality: `"@
        + persona_name(st.resolved_personality(channel)) + "`\n- This channel history: "@ + decimal(
        st.history(channel).len(),
    ) + " messages\n- Total history: "@ + decimal(capped(st.total_turn_count()) as nat)
        + " messages across "@ + decimal(st.channel_ids().len()) + " channels"@
}

/// The reply that shows a personality and its system prompt.
pub open spec fn personality_reply(p: Persona) -> Seq<char> {
    "**Current Personality**: `"@ + persona_name(p) + "`\n\n**System Prompt**:\n```\n"@
        + system_prompt(p) + "\n```"@
}

/// The reply to a name that names no personality: the name, then the list
/// of valid ones.
pub open spec fn unknown_personality_reply(input: Seq<char>) -> Seq<char> {
    "Unknown personality: "@ + input + "\nAvailable personalities: "@ + catalog_listing()
}

/// The reply that confirms a bound personality.
pub open spec fn personality_set_reply(p: Persona) -> Seq<char> {
    "Personality set to "@ + persona_name(p) + " for this channel."@
}

/// The developer turn that a developer command adds.
pub open spec fn developer_turn(text: Seq<char>) -> Turn {
    Turn { role: Role::Developer, content: seq![Part::InputText(text)] }
}

/// Forget: the channel's entry is deleted.
pub open spec fn run_forget(st: State, channel: u64) -> Step {
    Step { state: st.remove(channel), reply: REPLY_FORGOTTEN@, persist: true }
}

/// Model: a blank name changes nothing; any other becomes the model.
pub open spec fn run_model(st: State, argument: Seq<char>) -> Step {
    let name = trim(argument);
    if name.len() == 0 {
        Step { state: st, reply: REPLY_MODEL_USAGE@, persist: false }
    } else {
        Step {
            state: st.with_model(name),
            reply: model_changed_reply(st.current_model, name),
            persist: true,
        }
    }
}

/// Status: nothing changes; the reply reports what is stored.
pub open spec fn run_status(st: State, channel: u64) -> Step {
    Step { state: st, reply: status_reply(st, channel), persist: false }
}

/// Developer message: a blank text changes nothing; any other is appended to
/// the channel as a developer turn.
pub open spec fn run_dev(st: State, channel: u64, argument: Seq<char>) -> Step {
    let text = trim(argument);
    if text.len() == 0 {
        Step { state: st, reply: REPLY_DEV_USAGE@, persist: false }
    } else {
        Step {
            state: st.append(channel, developer_turn(text)),
            reply: REPLY_DEV_ADDED@,
            persist: true,
        }
    }
}

/// Show personality: nothing changes.
pub open spec fn run_get_personality(st: State, channel: u64) -> Step {
    Step {
        state: st,
        reply: personality_reply(st.resolved_personality(channel)),
        persist: false,
    }
}

/// Bind personality: a name that names one binds it to the channel;
/// anything else changes nothing and is answered with a hint.
pub open spec fn run_set_personality(st: State, channel: u64, argument: Seq<char>) -> Step {
    let input = trim(argument);
    if input.len() == 0 {
        Step { state: st, reply: REPLY_PERSONALITY_USAGE@, persist: false }
    } else {
        match parse_persona(input) {
            Some(p) => Step {
                state: st.set_personality(channel, p),
                reply: personality_set_reply(p),
                persist: true,
            },
            None => if has_custom_prefix(input) {
                Step { state: st, reply: REPLY_CUSTOM_USAGE@, persist: false }
            } else {
                Step { state: st, reply: unknown_personality_reply(input), persist: false }
            },
        }
    }
}

/// What a command does when the authorized user gives it.
pub open spec fn run_command(st: State, channel: u64, command: Command) -> Step {
    match command {
        Command::Forget => run_forget(st, channel),
        Command::Model(name) => run_model(st, name),
        Command::Status => run_status(st, channel),
        Command::DevMessage(text) => run_dev(st, channel, text),
        Command::GetPersonality => run_get_personality(st, channel),
        Command::SetPersonality(name) => run_set_personality(st, channel, name),
    }
}

/// Whether `reply` is what `step` asks for.
pub open spec fn reply_matches(reply: CommandReply, step: Step) -> bool {
    reply.text@ == step.reply && reply.persist == step.persist
}

/// The mathematical value of an outcome.
pub enum Outcome {
    NotCommand,
    Denied(Seq<char>),
    Handled(Seq<char>, bool),
}

impl View for CommandOutcome {
    type V = Outcome;

    open spec fn view(&self) -> Outcome {
        match self {
            CommandOutcome::NotCommand => Outcome::NotCommand,
            CommandOutcome::Denied { reply } => Outcome::Denied(reply@),
            CommandOutcome::Handled { reply, persist } => Outcome::Handled(reply@, *persist),
        }
    }
}

/// The state after a message was offered to the interpreter, and what
/// became of the message.
pub struct Processed {
    pub state: State,
    pub outcome: Outcome,
}

/// What the interpreter does with a message once it is known which command
/// it holds, if any. No command: the state stays and the message is handed
/// on. A command from anyone but the authorized user: the state stays and
/// the denial is the reply. A command from the authorized user: it is run.
pub open spec fn dispatch(
    st: State,
    authorized_user: u64,
    author_id: u64,
    channel: u64,
    parsed: Option<Command>,
) -> Processed {
    match parsed {
        None => Processed { state: st, outcome: Outcome::NotCommand },
        Some(command) => if author_id != authorized_user {
            Processed { state: st, outcome: Outcome::Denied(REPLY_DENIED@) }
        } else {
            let step = run_command(st, channel, command);
            Processed { state: step.state, outcome: Outcome::Handled(step.reply, step.persist) }
        },
    }
}

/// What the interpreter does with a message's content.
pub open spec fn process(
    st: State,
    authorized_user: u64,
    author_id: u64,
    channel: u64,
    content: Seq<char>,
) -> Processed {
    dispatch(st, authorized_user, author_id, channel, parse_command(content))
}

/// Recognizes an admin command in a message's content.
pub fn parse_admin_command(content: &str) -> (r: Option<AdminCommand>)
    ensures
        command_of(r) == parse_command(content@),
{
    let t = trimmed_chars(content);
    let forget = to_chars(TAG_FORGET);
    let model = to_chars(TAG_MODEL);
    let status = to_chars(TAG_STATUS);
    let dev = to_chars(TAG_DEV);
    let personality = to_chars(TAG_PERSONALITY);
    if chars_equal(&t, &forget) {
        Some(AdminCommand::Forget)
    } else if starts_with(&t, &model) {
        Some(AdminCommand::Model(trimmed_rest(&t, model.len())))
    } else if chars_equal(&t, &status) {
        Some(AdminCommand::Status)
    } else if starts_with(&t, &dev) {
        Some(AdminCommand::DevMessage(trimmed_rest(&t, dev.len())))
    } else if chars_equal(&t, &personality) {
        Some(AdminCommand::GetPersonality)
    } else if starts_with(&t, &personality) {
        Some(AdminCommand::SetPersonality(trimmed_rest(&t, personality.len())))
    } else {
        None
    }
}

/// Whether `author_id` is the user who may give admin commands.
pub fn is_admin(author_id: u64, authorized_user: u64) -> (b: bool)
    ensures
        b == (author_id == authorized_user),
{
    author_id == authorized_user
}

/// Deletes the channel's entry and confirms it.
pub fn handle_forget_command(state: &mut BotState, channel_id: u64) -> (r: CommandReply)
    ensures
        final(state)@ == run_forget(old(state)@, channel_id).state,
        reply_matches(r, run_forget(old(state)@, channel_id)),
{
    state.remove_conversation(channel_id);
    CommandReply { text: REPLY_FORGOTTEN.to_owned(), persist: true }
}

/// Changes the model to the trimmed `model_name`, or asks for a name where
/// that is blank.
pub fn handle_model_command(state: &mut BotState, model_name: &str) -> (r: CommandReply)
    ensures
        final(state)@ == run_model(old(state)@, model_name@).state,
        reply_matches(r, run_model(old(state)@, model_name@)),
{
    let name = trim_str(model_name);
    if name.as_str().unicode_len() == 0 {
        return CommandReply { text: REPLY_MODEL_USAGE.to_owned(), persist: false };
    }
    let text = change_model(state, name.as_str());
    CommandReply { text, persist: true }
}

/// Reports the model, the channel's personality and the stored turn counts.
pub fn handle_status_command(state: &BotState, channel_id: u64) -> (r: CommandReply)
    ensures
        reply_matches(r, run_status(state@, channel_id)),
{
    let current_model = state.get_current_model();
    let personality = state.get_channel_personality(channel_id).name();
    let channel_history_count = state.channel_turn_count(channel_id);
    let channel_count = state.channel_count();
    let total_history_count = state.get_total_history_count();
    let mut text = "**Bot Status**\n- Current model: `".to_owned();
    text.append(current_model.as_str());
    text.append("`\n- Current personality: `");
    text.append(personality.as_str());
    text.append("`\n- This channel history: ");
    push_decimal(&mut text, channel_history_count as u64);
    text.append(" messages\n- Total history: ");
    push_decimal(&mut text, total_history_count as u64);
    text.append(" messages across ");
    push_decimal(&mut text, channel_count as u64);
    text.append(" channels");
    CommandReply { text, persist: false }
}

/// Appends the trimmed `dev_message` to the channel as a developer turn, or
/// asks for a message where that is blank.
pub fn handle_dev_command(state: &mut BotState, channel_id: u64, dev_message: &str) -> (r:
    CommandReply)
    ensures
        final(state)@ == run_dev(old(state)@, channel_id, dev_message@).state,
        reply_matches(r, run_dev(old(state)@, channel_id, dev_message@)),
{
    let text = trim_str(dev_message);
    if text.as_str().unicode_len() == 0 {
        return CommandReply { text: REPLY_DEV_USAGE.to_owned(), persist: false };
    }
    state.add_message(channel_id, ChatMessage::developer(text));
    CommandReply { text: REPLY_DEV_ADDED.to_owned(), persist: true }
}

/// Shows the channel's personality and its system prompt.
pub fn handle_get_personality_command(state: &BotState, channel_id: u64) -> (r: CommandReply)
    ensures
        reply_matches(r, run_get_personality(state@, channel_id)),
{
    let personality = state.get_channel_personality(channel_id);
    let mut text = "**Current Personality**: `".to_owned();
    text.append(personality.name().as_str());
    text.append("`\n\n**System Prompt**:\n```\n");
    text.append(personality.get_system_prompt().as_str());
    text.append("\n```");
    CommandReply { text, persist: false }
}

/// Binds the personality that the trimmed `personality_input` names to the
/// channel; where it names none, nothing changes and the reply says what
/// would be valid.
pub fn handle_set_personality_command(
    state: &mut BotState,
    channel_id: u64,
    personality_input: &str,
) -> (r: CommandReply)
    ensures
        final(state)@ == run_set_personality(old(state)@, channel_id, personality_input@).state,
        reply_matches(r, run_set_personality(old(state)@, channel_id, personality_input@)),
{
    let input = trim_str(personality_input);
    if input.as_str().unicode_len() == 0 {
        return CommandReply { text: REPLY_PERSONALITY_USAGE.to_owned(), persist: false };
    }
    match BotPersonality::parse(input.as_str()) {
        Some(personality) => {
            let mut text = "Personality set to ".to_owned();
            text.append(personality.name().as_str());
            text.append(" for this channel.");
            state.set_channel_personality(channel_id, personality);
            CommandReply { text, persist: true }
        },
        None => {
            if BotPersonality::starts_with_custom(&to_chars(input.as_str())) {
                CommandReply { text: REPLY_CUSTOM_USAGE.to_owned(), persist: false }
            } else {
                let mut text = "Unknown personality: ".to_owned();
                text.append(input.as_str());
                text.append("\nAvailable personalities: ");
                text.append(BotPersonality::listing().as_str());
                CommandReply { text, persist: false }
            }
        },
    }
}

/// Offers a message to the interpreter. Content that is no command leaves
/// the state alone and is handed on. A command from anyone but the
/// authorized user is consumed with the denial and changes nothing. A
/// command from the authorized user is carried out.
pub fn process_admin_command(
    state: &mut BotState,
    authorized_user: u64,
    author_id: u64,
    channel_id: u64,
    content: &str,
) -> (r: CommandOutcome)
    ensures
        final(state)@ == process(
            old(state)@,
            authorized_user,
            author_id,
            channel_id,
            content@,
        ).state,
        r@ == process(old(state)@, authorized_user, author_id, channel_id, content@).outcome,
{
    let command = match parse_admin_command(content) {
        Some(command) => command,
        None => {
            return CommandOutcome::NotCommand;
        },
    };
    if !is_admin(author_id, authorized_user) {
        return CommandOutcome::Denied { reply: REPLY_DENIED.to_owned() };
    }
    let reply = match command {
        AdminCommand::Forget => handle_forget_command(state, channel_id),
        AdminCommand::Model(model_name) => handle_model_command(state, model_name.as_str()),
        AdminCommand::Status => handle_status_command(state, channel_id),
        AdminCommand::DevMessage(message) => handle_dev_command(
            state,
            channel_id,
            message.as_str(),
        ),
        AdminCommand::GetPersonality => handle_get_personality_command(state, channel_id),
        AdminCommand::SetPersonality(personality) => handle_set_personality_command(
            state,
            channel_id,
            personality.as_str(),
        ),
    };
    CommandOutcome::Handled { reply: reply.text, persist: reply.persist }
}

/// Only the authorized user can act. A command of any of the six kinds,
/// given by anyone else, changes nothing in the state and is answered with
/// the denial, whatever its argument.
pub proof fn lemma_unauthorized_command(
    st: State,
    authorized_user: u64,
    author_id: u64,
    channel: u64,
    command: Command,
)
    requires
        author_id != authorized_user,
    ensures
        dispatch(st, authorized_user, author_id, channel, Some(command)).state == st,
        dispatch(st, authorized_user, author_id, channel, Some(command)).outcome
            == Outcome::Denied(REPLY_DENIED@),
{
}

/// The same over message content: content that holds a command, sent by
/// anyone but the authorized user, changes nothing, is answered with the
/// denial, and is not handed on as a chat turn.
pub proof fn lemma_unauthorized_content(
    st: State,
    authorized_user: u64,
    author_id: u64,
    channel: u64,
    content: Seq<char>,
)
    requires
        author_id != authorized_user,
        parse_command(content) is Some,
    ensures
        process(st, authorized_user, author_id, channel, content).state == st,
        process(st, authorized_user, author_id, channel, content).outcome == Outcome::Denied(
            REPLY_DENIED@,
        ),
        process(st, authorized_user, author_id, channel, content).outcome != Outcome::NotCommand,
{
}

/// A command that is answered without a request to save has changed
/// nothing: usage hints, the status report, the personality report and the
/// list of valid names all leave the state as it was.
pub proof fn lemma_no_persist_no_change(st: State, channel: u64, command: Command)
    requires
        !run_command(st, channel, command).persist,
    ensures
        run_command(st, channel, command).state == st,
{
}

/// A name that names no personality binds nothing: unless it has the custom
/// prefix, the reply repeats the name and lists the closed set and the
/// custom hint.
pub proof fn lemma_unknown_personality(st: State, channel: u64, argument: Seq<char>)
    requires
        trim(argument).len() > 0,
        parse_persona(trim(argument)) is None,
    ensures
        run_set_personality(st, channel, argument).state == st,
        !run_set_personality(st, channel, argument).persist,
        !has_custom_prefix(trim(argument)) ==> run_set_personality(st, channel, argument).reply
            == "Unknown personality: "@ + trim(argument) + "\nAvailable personalities: "@
            + catalog_listing(),
{
}

/// The argument that a command is parsed with is already trimmed, so the
/// model that a model command sets, the text that a developer command
/// appends and the name that a personality command looks up are the
/// argument itself.
pub proof fn lemma_argument_is_trimmed(content: Seq<char>)
    ensures
        match parse_command(content) {
            Some(Command::Model(name)) => trim(name) == name,
            Some(Command::DevMessage(text)) => trim(text) == text,
            Some(Command::SetPersonality(name)) => trim(name) == name,
            _ => true,
        },
{
    let t = trim(content);
    lemma_trim_idempotent(t.skip(TAG_MODEL@.len() as int));
    lemma_trim_idempotent(t.skip(TAG_DEV@.len() as int));
    lemma_trim_idempotent(t.skip(TAG_PERSONALITY@.len() as int));
}

/// A command whose argument is nothing but whitespace changes nothing and
/// is answered with the hint for its kind.
pub proof fn lemma_blank_argument(st: State, channel: u64, argument: Seq<char>)
    requires
        all_whitespace(argument),
    ensures
        run_model(st, argument) == (Step { state: st, reply: REPLY_MODEL_USAGE@, persist: false }),
        run_dev(st, channel, argument) == (Step {
            state: st,
            reply: REPLY_DEV_USAGE@,
            persist: false,
        }),
        run_set_personality(st, channel, argument) == (Step {
            state: st,
            reply: REPLY_PERSONALITY_USAGE@,
            persist: false,
        }),
{
    lemma_trim_empty_iff(argument);
}

} // verus!
