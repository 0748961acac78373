use mintybot::conversation::ChatMessage;
use mintybot::logger::Logger;
use mintybot::msg_context::MsgContextInfo;
use mintybot::openai_schema::{InputTokensDetails, OutputTokensDetails, ResponsesUsage};

fn usage() -> ResponsesUsage {
    ResponsesUsage {
        input_tokens: 120,
        input_tokens_details: InputTokensDetails { cached_tokens: 0 },
        output_tokens: 30,
        output_tokens_details: OutputTokensDetails { reasoning_tokens: 0 },
        total_tokens: 150,
    }
}

fn context(named: bool) -> MsgContextInfo {
    MsgContextInfo {
        channel_id: 1001,
        channel_name: if named { Some("general".to_string()) } else { None },
        guild_id: if named { Some(55) } else { None },
        guild_name: if named { Some("Friends".to_string()) } else { None },
        author_id: 7,
        author_global_name: None,
        author_name: "alice".to_string(),
    }
}

#[test]
fn log_file_is_in_the_log_directory() {
    let logger = Logger::new("data/logs");
    assert_eq!(logger.log_dir, "data/logs");
    assert_eq!(logger.log_file_path(), "data/logs/conversations.log");
}

#[test]
fn entry_with_all_fields() {
    let logger = Logger::new("logs");
    let messages = vec![
        ChatMessage::developer("be kind".to_string()),
        ChatMessage::user("hello".to_string(), "Alice".to_string()),
    ];
    let entry = logger.log_openai_conversation(
        &context(true),
        &messages,
        "hi Alice",
        "2024-03-01 12:00:00 +0900",
        "1.25s",
        usage(),
    );
    let expected = "\n\n=====================================================\n\
Channel ID: 1001\n\
Channel Name: general\n\
Guild ID: 55\n\
Guild Name: Friends\n\
Timestamp: 2024-03-01 12:00:00 +0900\n\
API Call Duration: 1.25s\n\
Token Usage: Input: 120, Output: 30, Total: 150\n\
=====================================================\n\
\n[REQUEST]\n\
<developer> be kind\n\
<user> (Alice) hello\n\
\n[RESPONSE]\n\
hi Alice\n";
    assert_eq!(entry, expected);
}

#[test]
fn entry_without_names_leaves_their_lines_out() {
    let logger = Logger::new("logs");
    let head = logger.entry_head(&context(false), "t", "d", usage());
    assert_eq!(
        head,
        "\n\n=====================================================\nChannel ID: 1001\nTimestamp: t\nAPI Call Duration: d\nToken Usage: Input: 120, Output: 30, Total: 150\n=====================================================\n"
    );
    let entry = logger.log_openai_conversation(&context(false), &vec![], "r", "t", "d", usage());
    assert_eq!(entry, format!("{}\n[REQUEST]\n\n[RESPONSE]\nr\n", head));
}

#[test]
fn context_clone() {
    let c = context(true).clone();
    assert_eq!(c.channel_id, 1001);
    assert_eq!(c.channel_name.as_deref(), Some("general"));
    assert_eq!(c.guild_id, Some(55));
    assert_eq!(c.author_name, "alice");
}
