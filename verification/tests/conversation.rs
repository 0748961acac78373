use mintybot::conversation::{ChatMessage, ContentItem, Role};

fn input_text(item: &ContentItem) -> Option<&str> {
    match item {
        ContentItem::InputText { text } => Some(text.as_str()),
        _ => None,
    }
}

#[test]
fn user_turn_carries_the_name_in_front() {
    let m = ChatMessage::user("hello".to_string(), "Alice".to_string());
    assert_eq!(m.role, Role::User);
    assert_eq!(m.content.len(), 1);
    assert_eq!(input_text(&m.content[0]), Some("(Alice) hello"));
}

#[test]
fn user_turn_with_image_has_two_parts() {
    let m = ChatMessage::user_with_image(
        "look".to_string(),
        "Bob".to_string(),
        "https://example.com/a.png".to_string(),
    );
    assert_eq!(m.role, Role::User);
    assert_eq!(m.content.len(), 2);
    assert_eq!(input_text(&m.content[0]), Some("(Bob) look"));
    assert!(
        matches!(&m.content[1], ContentItem::InputImage { image_url } if image_url == "https://example.com/a.png")
    );
}

#[test]
fn assistant_turn_is_one_output_text() {
    let m = ChatMessage::assistant("hi there".to_string());
    assert_eq!(m.role, Role::Assistant);
    assert_eq!(m.content.len(), 1);
    assert!(matches!(&m.content[0], ContentItem::OutputText { text } if text == "hi there"));
}

#[test]
fn developer_turn_is_one_input_text_without_a_name() {
    let m = ChatMessage::developer("be kind".to_string());
    assert_eq!(m.role, Role::Developer);
    assert_eq!(m.content.len(), 1);
    assert_eq!(input_text(&m.content[0]), Some("be kind"));
}

#[test]
fn role_names() {
    assert_eq!(Role::User.as_str(), "user");
    assert_eq!(Role::Assistant.as_str(), "assistant");
    assert_eq!(Role::Developer.as_str(), "developer");
}

#[test]
fn display_joins_the_parts_with_spaces() {
    let m = ChatMessage::user_with_image("look".to_string(), "Bob".to_string(), "u".to_string());
    assert_eq!(m.to_display_string(), "<user> (Bob) look [Image: u]");
    assert_eq!(ChatMessage::assistant("ok".to_string()).to_display_string(), "<assistant> ok");
    let odd = ChatMessage {
        role: Role::Developer,
        content: vec![
            ContentItem::Other,
            ContentItem::OutputText { text: "x".to_string() },
            ContentItem::InputText { text: "y".to_string() },
        ],
    };
    assert_eq!(odd.to_display_string(), "<developer> [Unknown content] x y");
    let empty = ChatMessage { role: Role::User, content: vec![] };
    assert_eq!(empty.to_display_string(), "<user> ");
    assert_eq!(ContentItem::Other.to_display_string(), "[Unknown content]");
}

#[test]
fn clone_copies_every_part() {
    let m = ChatMessage::user_with_image("a".to_string(), "n".to_string(), "u".to_string());
    let c = m.clone();
    assert_eq!(c.role, Role::User);
    assert_eq!(c.to_display_string(), m.to_display_string());
    assert_eq!(c.content.len(), 2);
}
