use mintybot::conversation::ChatMessage;
use mintybot::persistence::{
    add_message, change_model, get_channel_ids, get_channel_personality, get_conversation_history,
    get_current_model, get_total_history_count, load_state, remove_conversation,
    reset_if_version_mismatch, save_state, set_channel_personality, temp_path_for, LoadError,
    LoadResult,
};
use mintybot::personality::BotPersonality;
use mintybot::state::{BotState, CURRENT_STATE_VERSION};

fn stored() -> BotState {
    let mut st = BotState::default();
    st.current_model = "gpt-x".to_string();
    add_message(&mut st, 1, ChatMessage::user("hi".to_string(), "A".to_string()));
    set_channel_personality(&mut st, 2, BotPersonality::custom("p".to_string()));
    st
}

#[test]
fn a_state_of_the_current_version_is_kept() {
    let mut st = stored();
    reset_if_version_mismatch(&mut st);
    assert_eq!(st.current_model, "gpt-x");
    assert_eq!(get_total_history_count(&st), 1);
    assert_eq!(st.version, CURRENT_STATE_VERSION);
}

#[test]
fn a_state_of_another_version_is_reset_whole() {
    for version in [0, 1, 3, u32::MAX] {
        let mut st = stored();
        st.version = version;
        reset_if_version_mismatch(&mut st);
        assert_eq!(st.version, CURRENT_STATE_VERSION);
        assert_eq!(st.current_model, "gpt-5");
        assert!(get_channel_ids(&st).is_empty());
        assert!(matches!(st.default_personality, BotPersonality::Normal));
    }
}

#[test]
fn startup_with_a_loaded_state() {
    let plan = load_state(LoadResult::Loaded(stored()));
    assert_eq!(plan.state.current_model, "gpt-x");
    assert!(!plan.create_directory);
    assert!(plan.error.is_none());
    let mut old = stored();
    old.version = 1;
    let plan = load_state(LoadResult::Loaded(old));
    assert_eq!(plan.state.current_model, "gpt-5");
    assert!(plan.state.conversations.is_empty());
    assert!(plan.error.is_none());
}

#[test]
fn startup_without_a_state_file() {
    let plan = load_state(LoadResult::NotFound);
    assert!(plan.create_directory);
    assert!(plan.error.is_none());
    assert_eq!(plan.state.current_model, "gpt-5");
    assert!(plan.state.conversations.is_empty());
}

#[test]
fn startup_after_a_failed_read() {
    let plan = load_state(LoadResult::Failed(LoadError::Io { detail: "denied".to_string() }));
    assert!(!plan.create_directory);
    assert!(matches!(plan.error, Some(LoadError::Io { detail }) if detail == "denied"));
    assert!(plan.state.conversations.is_empty());
    let plan = load_state(LoadResult::Failed(LoadError::Corrupt { detail: "eof".to_string() }));
    assert!(matches!(plan.error, Some(LoadError::Corrupt { detail }) if detail == "eof"));
    assert_eq!(plan.state.version, CURRENT_STATE_VERSION);
}

#[test]
fn snapshot_holds_what_the_state_holds() {
    let st = stored();
    let snapshot = save_state(&st);
    assert_eq!(snapshot.current_model, "gpt-x");
    assert_eq!(snapshot.version, st.version);
    let mut ids = get_channel_ids(&snapshot);
    ids.sort();
    assert_eq!(ids, vec![1, 2]);
    assert_eq!(
        get_conversation_history(&snapshot, 1)[1].to_display_string(),
        "<user> (A) hi"
    );
    assert!(matches!(get_channel_personality(&snapshot, 2), BotPersonality::Custom(p) if p == "p"));
}

#[test]
fn temporary_file_sits_beside_the_state_file() {
    assert_eq!(temp_path_for("data/bot_state.json"), "data/bot_state.json.tmp");
    assert_eq!(temp_path_for(""), ".tmp");
}

#[test]
fn store_operations() {
    let mut st = BotState::default();
    assert_eq!(get_current_model(&st), "gpt-5");
    assert_eq!(change_model(&mut st, "gpt-x"), "Model changed from gpt-5 to gpt-x");
    assert_eq!(get_current_model(&st), "gpt-x");
    add_message(&mut st, 1, ChatMessage::assistant("a".to_string()));
    add_message(&mut st, 1, ChatMessage::assistant("b".to_string()));
    assert_eq!(get_total_history_count(&st), 2);
    assert_eq!(get_conversation_history(&st, 1).len(), 3);
    assert!(matches!(get_channel_personality(&st, 1), BotPersonality::Normal));
    remove_conversation(&mut st, 1);
    assert_eq!(get_total_history_count(&st), 0);
    assert!(get_channel_ids(&st).is_empty());
}
