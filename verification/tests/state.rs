use mintybot::conversation::{ChatMessage, ContentItem, Role};
use mintybot::personality::BotPersonality;
use mintybot::state::{
    BotState, ChannelConversation, CURRENT_STATE_VERSION, DEFAULT_MODEL, MAX_HISTORY_COUNT,
};

fn text_of(m: &ChatMessage) -> String {
    match &m.content[0] {
        ContentItem::InputText { text } => text.clone(),
        ContentItem::OutputText { text } => text.clone(),
        _ => String::new(),
    }
}

fn numbered(i: usize) -> ChatMessage {
    ChatMessage::user(format!("m{}", i), "A".to_string())
}

#[test]
fn initial_state() {
    let st = BotState::default();
    assert_eq!(st.current_model, "gpt-5");
    assert_eq!(DEFAULT_MODEL, "gpt-5");
    assert_eq!(st.version, 2);
    assert_eq!(CURRENT_STATE_VERSION, 2);
    assert_eq!(MAX_HISTORY_COUNT, 300);
    assert!(st.conversations.is_empty());
    assert!(matches!(st.default_personality, BotPersonality::Normal));
    assert_eq!(st.get_total_history_count(), 0);
    assert_eq!(st.channel_count(), 0);
    assert!(st.get_channel_ids().is_empty());
}

#[test]
fn first_append_reads_back_as_system_turn_and_user_turn() {
    let mut st = BotState::default();
    st.add_message(1, ChatMessage::user("hello".to_string(), "Alice".to_string()));
    let transcript = st.get_conversation(1);
    assert_eq!(transcript.len(), 2);
    assert_eq!(transcript[0].role, Role::Developer);
    assert_eq!(text_of(&transcript[0]), BotPersonality::Normal.get_system_prompt());
    assert_eq!(transcript[1].role, Role::User);
    assert_eq!(transcript[1].content.len(), 1);
    assert_eq!(text_of(&transcript[1]), "(Alice) hello");
}

#[test]
fn reading_an_unseen_channel_stores_nothing() {
    let st = BotState::default();
    let transcript = st.get_conversation(9);
    assert_eq!(transcript.len(), 1);
    assert_eq!(transcript[0].role, Role::Developer);
    assert!(st.conversations.is_empty());
    assert_eq!(st.channel_turn_count(9), 0);
}

#[test]
fn history_is_bounded_and_keeps_the_newest_in_order() {
    let mut st = BotState::default();
    let n = MAX_HISTORY_COUNT + 25;
    for i in 0..n {
        st.add_message(5, numbered(i));
        assert!(st.channel_turn_count(5) <= MAX_HISTORY_COUNT);
    }
    let transcript = st.get_conversation(5);
    assert_eq!(transcript.len() - 1, MAX_HISTORY_COUNT);
    for (k, m) in transcript[1..].iter().enumerate() {
        assert_eq!(text_of(m), format!("(A) m{}", n - MAX_HISTORY_COUNT + k));
    }
}

#[test]
fn eviction_is_first_in_first_out() {
    let mut st = BotState::default();
    for i in 0..MAX_HISTORY_COUNT {
        st.add_message(5, numbered(i));
    }
    assert_eq!(text_of(&st.get_conversation(5)[1]), "(A) m0");
    st.add_message(5, numbered(MAX_HISTORY_COUNT));
    assert_eq!(text_of(&st.get_conversation(5)[1]), "(A) m1");
    assert_eq!(st.channel_turn_count(5), MAX_HISTORY_COUNT);
    st.add_message(5, numbered(MAX_HISTORY_COUNT + 1));
    let t = st.get_conversation(5);
    assert_eq!(text_of(&t[1]), "(A) m2");
    assert_eq!(text_of(&t[MAX_HISTORY_COUNT]), format!("(A) m{}", MAX_HISTORY_COUNT + 1));
}

#[test]
fn an_overlong_history_is_cut_back_by_the_next_append() {
    let mut st = BotState::default();
    let mut conversation = ChannelConversation::new();
    for i in 0..(MAX_HISTORY_COUNT + 10) {
        conversation.history.push_back(numbered(i));
    }
    st.conversations.insert(3, conversation);
    assert_eq!(st.channel_turn_count(3), MAX_HISTORY_COUNT + 10);
    st.add_message(3, numbered(999));
    assert_eq!(st.channel_turn_count(3), MAX_HISTORY_COUNT);
    let t = st.get_conversation(3);
    assert_eq!(text_of(&t[1]), "(A) m11");
    assert_eq!(text_of(&t[MAX_HISTORY_COUNT]), "(A) m999");
}

#[test]
fn developer_turns_are_evicted_like_any_other() {
    let mut st = BotState::default();
    st.add_message(5, ChatMessage::developer("rule".to_string()));
    for i in 0..MAX_HISTORY_COUNT {
        st.add_message(5, numbered(i));
    }
    let t = st.get_conversation(5);
    assert_eq!(t.len(), MAX_HISTORY_COUNT + 1);
    assert_eq!(text_of(&t[1]), "(A) m0");
}

#[test]
fn personality_resolution() {
    let mut st = BotState::default();
    assert!(matches!(st.get_channel_personality(1), BotPersonality::Normal));
    st.add_message(1, numbered(0));
    assert!(matches!(st.get_channel_personality(1), BotPersonality::Normal));
    st.set_channel_personality(1, BotPersonality::Tsundere);
    assert!(matches!(st.get_channel_personality(1), BotPersonality::Tsundere));
    assert!(matches!(st.get_channel_personality(2), BotPersonality::Normal));
    let t = st.get_conversation(1);
    assert_eq!(text_of(&t[0]), BotPersonality::Tsundere.get_system_prompt());
    assert_eq!(t.len(), 2);
    assert_eq!(text_of(&t[1]), "(A) m0");
    st.remove_conversation(1);
    assert!(matches!(st.get_channel_personality(1), BotPersonality::Normal));
    assert_eq!(text_of(&st.get_conversation(1)[0]), BotPersonality::Normal.get_system_prompt());
}

#[test]
fn default_personality_applies_where_nothing_is_bound() {
    let mut st = BotState::default();
    st.default_personality = BotPersonality::Girlfriend;
    assert!(matches!(st.get_channel_personality(1), BotPersonality::Girlfriend));
    st.set_channel_personality(1, BotPersonality::SoftwareNerd);
    assert!(matches!(st.get_channel_personality(1), BotPersonality::SoftwareNerd));
    st.remove_conversation(1);
    assert!(matches!(st.get_channel_personality(1), BotPersonality::Girlfriend));
}

#[test]
fn binding_a_personality_creates_an_entry_without_turns() {
    let mut st = BotState::default();
    st.set_channel_personality(4, BotPersonality::custom("p".to_string()));
    assert_eq!(st.get_channel_ids(), vec![4]);
    assert_eq!(st.channel_turn_count(4), 0);
    assert_eq!(st.get_conversation(4).len(), 1);
    assert_eq!(st.get_total_history_count(), 0);
    st.add_message(4, numbered(0));
    assert!(matches!(st.get_channel_personality(4), BotPersonality::Custom(p) if p == "p"));
}

#[test]
fn forget_deletes_turns_and_personality() {
    let mut st = BotState::default();
    st.add_message(1, numbered(0));
    st.add_message(2, numbered(1));
    st.set_channel_personality(1, BotPersonality::Tsundere);
    st.remove_conversation(1);
    assert_eq!(st.get_channel_ids(), vec![2]);
    let t = st.get_conversation(1);
    assert_eq!(t.len(), 1);
    assert_eq!(text_of(&t[0]), BotPersonality::Normal.get_system_prompt());
    assert_eq!(st.channel_turn_count(2), 1);
    st.remove_conversation(77);
    assert_eq!(st.get_channel_ids(), vec![2]);
}

#[test]
fn counts_over_several_channels() {
    let mut st = BotState::default();
    for i in 0..3 {
        st.add_message(10, numbered(i));
    }
    for i in 0..5 {
        st.add_message(20, numbered(i));
    }
    st.set_channel_personality(30, BotPersonality::Normal);
    assert_eq!(st.get_total_history_count(), 8);
    assert_eq!(st.channel_count(), 3);
    assert_eq!(st.channel_turn_count(10), 3);
    assert_eq!(st.channel_turn_count(20), 5);
    assert_eq!(st.channel_turn_count(30), 0);
    let mut ids = st.get_channel_ids();
    ids.sort();
    assert_eq!(ids, vec![10, 20, 30]);
}

#[test]
fn model_change() {
    let mut st = BotState::default();
    st.add_message(1, numbered(0));
    st.change_model("gpt-x".to_string());
    assert_eq!(st.get_current_model(), "gpt-x");
    assert_eq!(st.channel_turn_count(1), 1);
}
