//! The text of an audit log entry for one call to the model.

use crate::conversation::{turn_display, turns_of, ChatMessage, Turn};
use crate::msg_context::MsgContextInfo;
use crate::openai_schema::ResponsesUsage;
use crate::text::{decimal, push_decimal};
use vstd::prelude::*;

verus! {

/// The line that frames the head of an entry.
pub const SEPARATOR: &'static str = "=====================================================";

/// The name of the log file inside the log directory.
pub const LOG_FILE_NAME: &'static str = "conversations.log";

/// A log writer: it knows the directory that holds the log file.
#[derive(Debug)]
pub struct Logger {
    pub log_dir: String,
}

/// One line of an entry: a label, a value, and a line feed.
pub open spec fn labelled_line(label: Seq<char>, value: Seq<char>) -> Seq<char> {
    label + value + "\n"@
}

/// A labelled line where the value is there; nothing where it is not.
pub open spec fn optional_line(label: Seq<char>, value: Option<Seq<char>>) -> Seq<char> {
    match value {
        Some(v) => labelled_line(label, v),
        None => Seq::empty(),
    }
}

/// The line that reports the token usage.
pub open spec fn usage_line(usage: ResponsesUsage) -> Seq<char> {
    "Token Usage: Input: "@ + decimal(usage.input_tokens as nat) + ", Output: "@ + decimal(
        usage.output_tokens as nat,
    ) + ", Total: "@ + decimal(usage.total_tokens as nat) + "\n"@
}

/// The head of an entry: where the message came from, when the call was
/// made, how long it took and what it cost.
pub open spec fn entry_head(
    channel_id: u64,
    channel_name: Option<Seq<char>>,
    guild_id: Option<u64>,
    guild_name: Option<Seq<char>>,
    timestamp: Seq<char>,
    duration: Seq<char>,
    usage: ResponsesUsage,
) -> Seq<char> {
    "\n\n"@ + SEPARATOR@ + "\n"@ + labelled_line("Channel ID: "@, decimal(channel_id as nat))
        + optional_line("Channel Name: "@, channel_name) + optional_line(
        "Guild ID: "@,
        match guild_id {
            Some(id) => Some(decimal(id as nat)),
            None => None,
        },
    ) + optional_line("Guild Name: "@, guild_name) + labelled_line("Timestamp: "@, timestamp)
        + labelled_line("API Call Duration: "@, duration) + usage_line(usage) + SEPARATOR@
        + "\n"@
}

/// The first `n` turns of `turns`, one per line.
pub open spec fn turn_lines(turns: Seq<Turn>, n: nat) -> Seq<char>
    decreases n,
{
    if n == 0 {
        Seq::empty()
    } else {
        turn_lines(turns, (n - 1) as nat) + turn_display(turns[n - 1]) + "\n"@
    }
}

/// A whole entry: the head, the request turn by turn, and the response.
pub open spec fn log_entry(head: Seq<char>, turns: Seq<Turn>, response: Seq<char>) -> Seq<char> {
    head + "\n[REQUEST]\n"@ + turn_lines(turns, turns.len()) + "\n[RESPONSE]\n"@ + response
        + "\n"@
}

/// The value of an optional string.
pub open spec fn value_of(s: Option<String>) -> Option<Seq<char>> {
    match s {
        Some(s) => Some(s@),
        None => None,
    }
}

/// The path of the log file in the directory `log_dir`.
pub open spec fn log_file_path(log_dir: Seq<char>) -> Seq<char> {
    log_dir + "/"@ + LOG_FILE_NAME@
}

impl Logger {
    /// A log writer for the directory `log_dir`.
    pub fn new(log_dir: &str) -> (r: Self)
        ensures
            r.log_dir@ == log_dir@,
    {
        Logger { log_dir: log_dir.to_owned() }
    }

    /// The path of the log file.
    pub fn log_file_path(&self) -> (r: String)
        ensures
            r@ == log_file_path(self.log_dir@),
    {
        let mut r = self.log_dir.clone();
        r.append("/");
        r.append(LOG_FILE_NAME);
        r
    }

    /// The head of the entry for one call.
    pub fn entry_head(
        &self,
        msg_ctx: &MsgContextInfo,
        timestamp: &str,
        duration: &str,
        token_usage: ResponsesUsage,
    ) -> (r: String)
        ensures
            r@ == entry_head(
                msg_ctx.channel_id,
                value_of(msg_ctx.channel_name),
                msg_ctx.guild_id,
                value_of(msg_ctx.guild_name),
                timestamp@,
                duration@,
                token_usage,
            ),
    {
        let mut r = "\n\n".to_owned();
        r.append(SEPARATOR);
        r.append("\n");
        let ghost start = r@;
        r.append("Channel ID: ");
        push_decimal(&mut r, msg_ctx.channel_id);
        r.append("\n");
        assert(r@ =~= start + labelled_line("Channel ID: "@, decimal(msg_ctx.channel_id as nat)));
        let ghost a = r@;
        if let Some(channel_name) = &msg_ctx.channel_name {
            r.append("Channel Name: ");
            r.append(channel_name.as_str());
            r.append("\n");
        }
        assert(r@ =~= a + optional_line("Channel Name: "@, value_of(msg_ctx.channel_name)));
        let ghost b = r@;
        if let Some(guild_id) = msg_ctx.guild_id {
            r.append("Guild ID: ");
            push_decimal(&mut r, guild_id);
            r.append("\n");
        }
        assert(r@ =~= b + optional_line(
            "Guild ID: "@,
            match msg_ctx.guild_id {
                Some(id) => Some(decimal(id as nat)),
                None => None,
            },
        ));
        let ghost c = r@;
        if let Some(guild_name) = &msg_ctx.guild_name {
            r.append("Guild Name: ");
            r.append(guild_name.as_str());
            r.append("\n");
        }
        assert(r@ =~= c + optional_line("Guild Name: "@, value_of(msg_ctx.guild_name)));
        let ghost d = r@;
        r.append("Timestamp: ");
        r.append(timestamp);
        r.append("\n");
        assert(r@ =~= d + labelled_line("Timestamp: "@, timestamp@));
        let ghost e = r@;
        r.append("API Call Duration: ");
        r.append(duration);
        r.append("\n");
        assert(r@ =~= e + labelled_line("API Call Duration: "@, duration@));
        let ghost f = r@;
        r.append("Token Usage: Input: ");
        push_decimal(&mut r, token_usage.input_tokens as u64);
        r.append(", Output: ");
        push_decimal(&mut r, token_usage.output_tokens as u64);
        r.append(", Total: ");
        push_decimal(&mut r, token_usage.total_tokens as u64);
        r.append("\n");
        assert(r@ =~= f + usage_line(token_usage));
        r.append(SEPARATOR);
        r.append("\n");
        r
    }

    /// The entry for one call: the head, each turn of the request on a line
    /// of its own, and the response.
    pub fn log_openai_conversation(
        &self,
        msg_ctx: &MsgContextInfo,
        messages: &Vec<ChatMessage>,
        response: &str,
        timestamp: &str,
        duration: &str,
        token_usage: ResponsesUsage,
    ) -> (r: String)
        ensures
            r@ == log_entry(
                entry_head(
                    msg_ctx.channel_id,
                    value_of(msg_ctx.channel_name),
                    msg_ctx.guild_id,
                    value_of(msg_ctx.guild_name),
                    timestamp@,
                    duration@,
                    token_usage,
                ),
                turns_of(messages@),
                response@,
            ),
    {
        let mut r = self.entry_head(msg_ctx, timestamp, duration, token_usage);
        r.append("\n[REQUEST]\n");
        let ghost start = r@;
        let ghost turns = turns_of(messages@);
        let mut i: usize = 0;
        assert(start + turn_lines(turns, 0) =~= start);
        while i < messages.len()
            invariant
                0 <= i <= messages.len(),
                turns == turns_of(messages@),
                r@ == start + turn_lines(turns, i as nat),
            decreases messages.len() - i,
        {
            let line = messages[i].to_display_string();
            r.append(line.as_str());
            r.append("\n");
            i = i + 1;
            assert(r@ =~= start + turn_lines(turns, i as nat));
        }
        r.append("\n[RESPONSE]\n");
        r.append(response);
        r.append("\n");
        r
    }
}

} // verus!
