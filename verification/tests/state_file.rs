use mintybot::conversation::{ChatMessage, ContentItem, Role};
use mintybot::persistence::{save_plan, SaveAction};
use mintybot::personality::BotPersonality;
use mintybot::state::{BotState, ChannelConversation};
use mintybot::state_file::{StateFile, StoredHistory, StoredPersonality};

fn fingerprint(st: &BotState) -> String {
    let mut ids = st.get_channel_ids();
    ids.sort();
    let mut out = format!(
        "{}|{}|{}",
        st.current_model,
        st.version,
        st.default_personality.get_system_prompt()
    );
    for id in ids {
        let conversation = &st.conversations[&id];
        out.push_str(&format!("|{}:", id));
        match &conversation.personality {
            Some(p) => out.push_str(&format!("some({}):", p.get_system_prompt())),
            None => out.push_str("none:"),
        }
        for m in conversation.history.iter() {
            out.push_str(&format!("{:?};", m));
        }
    }
    out
}

fn rich_state() -> BotState {
    let mut st = BotState::default();
    st.current_model = "gpt-x".to_string();
    st.default_personality = BotPersonality::Girlfriend;
    st.add_message(
        1,
        ChatMessage::user_with_image("look".to_string(), "A".to_string(), "http://i/1.png".to_string()),
    );
    st.add_message(1, ChatMessage::assistant("nice".to_string()));
    st.add_message(1, ChatMessage::developer("rule".to_string()));
    st.set_channel_personality(1, BotPersonality::custom("You are a pirate.".to_string()));
    st.set_channel_personality(2, BotPersonality::Tsundere);
    st.conversations.insert(3, ChannelConversation::new());
    st.add_message(4, ChatMessage::user("x".to_string(), "B".to_string()));
    st
}

#[test]
fn a_stored_state_comes_back_as_it_was() {
    let st = rich_state();
    let file = StateFile::from_state(&st);
    let back = file.into_state();
    assert_eq!(fingerprint(&back), fingerprint(&st));
    assert_eq!(back.conversations[&1].history[0].content.len(), 2);
    assert!(back.conversations[&3].history.is_empty());
    assert!(back.conversations[&3].personality.is_none());
    assert!(
        matches!(&back.conversations[&1].personality, Some(BotPersonality::Custom(p)) if p == "You are a pirate.")
    );
}

#[test]
fn the_initial_state_comes_back_as_it_was() {
    let st = BotState::default();
    let file = StateFile::from_state(&st);
    assert!(file.conversations.is_empty());
    assert!(file.channel_personalities.is_empty());
    assert_eq!(file.current_model, "gpt-5");
    assert_eq!(file.version, 2);
    assert_eq!(fingerprint(&file.into_state()), fingerprint(&st));
}

#[test]
fn the_stored_layout_lists_histories_and_personalities_apart() {
    let file = StateFile::from_state(&rich_state());
    assert_eq!(file.current_model, "gpt-x");
    assert!(matches!(file.default_personality, BotPersonality::Girlfriend));
    let mut histories: Vec<(u64, usize)> =
        file.conversations.iter().map(|h| (h.channel_id, h.messages.len())).collect();
    histories.sort();
    assert_eq!(histories, vec![(1, 3), (2, 0), (3, 0), (4, 1)]);
    let mut bound: Vec<u64> = file.channel_personalities.iter().map(|p| p.channel_id).collect();
    bound.sort();
    assert_eq!(bound, vec![1, 2]);
}

#[test]
fn a_personality_without_a_history_makes_an_entry_without_turns() {
    let file = StateFile {
        current_model: "m".to_string(),
        conversations: vec![StoredHistory {
            channel_id: 5,
            messages: vec![ChatMessage::assistant("a".to_string())],
        }],
        version: 2,
        default_personality: BotPersonality::Normal,
        channel_personalities: vec![
            StoredPersonality { channel_id: 6, personality: BotPersonality::SoftwareNerd },
            StoredPersonality { channel_id: 5, personality: BotPersonality::Tsundere },
        ],
    };
    let st = file.into_state();
    assert_eq!(st.channel_count(), 2);
    assert_eq!(st.channel_turn_count(6), 0);
    assert!(matches!(st.get_channel_personality(6), BotPersonality::SoftwareNerd));
    assert_eq!(st.channel_turn_count(5), 1);
    assert!(matches!(st.get_channel_personality(5), BotPersonality::Tsundere));
    assert_eq!(st.conversations[&5].history[0].role, Role::Assistant);
    assert!(matches!(&st.conversations[&5].history[0].content[0], ContentItem::OutputText { text } if text == "a"));
}

#[test]
fn a_later_entry_for_a_channel_replaces_an_earlier_one() {
    let file = StateFile {
        current_model: "m".to_string(),
        conversations: vec![
            StoredHistory { channel_id: 5, messages: vec![ChatMessage::assistant("a".to_string())] },
            StoredHistory { channel_id: 5, messages: vec![] },
        ],
        version: 7,
        default_personality: BotPersonality::Normal,
        channel_personalities: vec![],
    };
    let st = file.into_state();
    assert_eq!(st.version, 7);
    assert_eq!(st.channel_count(), 1);
    assert_eq!(st.channel_turn_count(5), 0);
}

#[test]
fn a_save_writes_the_temporary_file_and_renames_it() {
    let plan = save_plan("data", "data/bot_state.json", "{}".to_string());
    assert_eq!(plan.len(), 3);
    assert!(matches!(&plan[0], SaveAction::CreateDirectory { path } if path == "data"));
    assert!(
        matches!(&plan[1], SaveAction::WriteFile { path, contents } if path == "data/bot_state.json.tmp" && contents == "{}")
    );
    assert!(
        matches!(&plan[2], SaveAction::Rename { from, to } if from == "data/bot_state.json.tmp" && to == "data/bot_state.json")
    );
}

fn run(disk: &mut std::collections::HashMap<String, String>, action: &SaveAction) {
    match action {
        SaveAction::CreateDirectory { .. } => {}
        SaveAction::WriteFile { path, contents } => {
            disk.insert(path.clone(), contents.clone());
        }
        SaveAction::Rename { from, to } => {
            if let Some(contents) = disk.remove(from) {
                disk.insert(to.clone(), contents);
            }
        }
    }
}

#[test]
fn a_save_that_stops_before_the_rename_leaves_the_state_file_as_it_was() {
    let path = "data/bot_state.json";
    let plan = save_plan("data", path, "new".to_string());
    for done in 0..plan.len() {
        let mut disk = std::collections::HashMap::new();
        disk.insert(path.to_string(), "old".to_string());
        for action in plan.iter().take(done) {
            run(&mut disk, action);
        }
        assert_eq!(disk[path], "old", "after {} steps", done);
        if let SaveAction::WriteFile { path: temp, .. } = &plan[done] {
            disk.insert(temp.clone(), "ne".to_string());
            assert_eq!(disk[path], "old");
        }
    }
    let mut disk = std::collections::HashMap::new();
    disk.insert(path.to_string(), "old".to_string());
    for action in plan.iter() {
        run(&mut disk, action);
    }
    assert_eq!(disk[path], "new");
    assert_eq!(disk.len(), 1);
}
