use mintybot::message::{
    check_mentioned, clean_message_content, contains_id, get_best_name_of_author, member_roles,
    role_mentioned, should_respond, RoleInfo,
};
use mintybot::statics::{get_discord_token_env_name, is_dev_mode};
use mintybot::text::{contains_str, join_strings, remove_all_str, replace_all_str, split_at_byte};

fn role(id: u64, name: &str) -> RoleInfo {
    RoleInfo { id, name: name.to_string() }
}

#[test]
fn mentions_of_the_bot_are_taken_out() {
    assert_eq!(clean_message_content("<@123> hello", 123, &vec![]), "hello");
    assert_eq!(clean_message_content("hi <@!123> there ", 123, &vec![]), "hi  there");
    assert_eq!(clean_message_content("<@123><@!123><@123>", 123, &vec![]), "");
    assert_eq!(clean_message_content("<@124> hello", 123, &vec![]), "<@124> hello");
    assert_eq!(clean_message_content("  <status>  ", 1, &vec![]), "<status>");
}

#[test]
fn mentions_of_the_listed_roles_are_taken_out() {
    assert_eq!(
        clean_message_content("<@&7> do <@&8> it <@&9>", 1, &vec![7, 8]),
        "do  it <@&9>"
    );
    assert_eq!(clean_message_content("<@&18446744073709551615>x", 1, &vec![u64::MAX]), "x");
}

#[test]
fn removal_is_one_pass_from_the_left() {
    assert_eq!(clean_message_content("<@<@1>1>", 1, &vec![]), "<@1>");
    assert_eq!(remove_all_str("aaa", "aa"), "a");
    assert_eq!(remove_all_str("abab", "ab"), "");
    assert_eq!(remove_all_str("abc", ""), "abc");
    assert_eq!(remove_all_str("", "x"), "");
}

#[test]
fn replacement_agrees_with_the_standard_library() {
    let cases = [
        ("a  b   c    d", "  ", " "),
        ("aaaa", "aa", "b"),
        ("x\ny\n", "\n", ""),
        ("가나다가나", "가나", "다"),
        ("abc", "abcd", "x"),
        ("", "a", "b"),
    ];
    for (s, pattern, with) in cases {
        assert_eq!(replace_all_str(s, pattern, with), s.replace(pattern, with));
    }
}

#[test]
fn substring_search_agrees_with_the_standard_library() {
    let cases = [
        ("기준일: 2024", "기준일"), ("2024 기준일", "기준일"), ("기준", "기준일"), ("", ""), ("abc", ""),
        ("abc", "c"), ("abc", "d"), ("", "a"), ("aab", "ab"),
    ];
    for (s, pattern) in cases {
        assert_eq!(contains_str(s, pattern), s.contains(pattern), "{:?} {:?}", s, pattern);
    }
}

#[test]
fn joining_agrees_with_the_standard_library() {
    let parts = vec!["a".to_string(), "".to_string(), "c d".to_string()];
    assert_eq!(join_strings(&parts, ", "), parts.join(", "));
    assert_eq!(join_strings(&vec![], ", "), "");
    assert_eq!(join_strings(&vec!["x".to_string()], ", "), "x");
}

#[test]
fn cutting_at_a_byte() {
    assert_eq!(split_at_byte("20240301", 6), Some(("202403", "01")));
    assert_eq!(split_at_byte("가나", 3), Some(("가", "나")));
    assert_eq!(split_at_byte("가나", 2), None);
    assert_eq!(split_at_byte("ab", 2), Some(("ab", "")));
    assert_eq!(split_at_byte("ab", 3), None);
    assert_eq!(split_at_byte("", 0), Some(("", "")));
}

#[test]
fn role_mention_goes_by_the_first_role_with_the_bots_name() {
    let roles = vec![role(1, "admin"), role(2, "MintyBot"), role(3, "MintyBot")];
    assert!(role_mentioned(&roles, "MintyBot", &vec![9, 2]));
    assert!(!role_mentioned(&roles, "MintyBot", &vec![3]));
    assert!(!role_mentioned(&roles, "MintyBot", &vec![]));
    assert!(!role_mentioned(&roles, "Other", &vec![1, 2, 3]));
    assert!(!role_mentioned(&vec![], "MintyBot", &vec![2]));
}

#[test]
fn member_roles_are_those_whose_id_the_member_has() {
    let all = vec![role(1, "a"), role(2, "b"), role(3, "c"), role(4, "d")];
    let kept = member_roles(&all, &vec![4, 2, 9]);
    assert_eq!(kept.len(), 2);
    assert_eq!((kept[0].id, kept[0].name.as_str()), (2, "b"));
    assert_eq!((kept[1].id, kept[1].name.as_str()), (4, "d"));
    assert!(member_roles(&all, &vec![]).is_empty());
}

#[test]
fn small_decisions() {
    assert!(check_mentioned(true, false));
    assert!(check_mentioned(false, true));
    assert!(!check_mentioned(false, false));
    assert!(should_respond(false, true));
    assert!(!should_respond(true, true));
    assert!(!should_respond(false, false));
    assert!(contains_id(&vec![1, 2], 2));
    assert!(!contains_id(&vec![1, 2], 3));
}

#[test]
fn best_name_is_the_first_that_is_there() {
    let n = |s: &str| Some(s.to_string());
    assert_eq!(get_best_name_of_author(n("nick"), n("display"), "user".to_string()), "nick");
    assert_eq!(get_best_name_of_author(None, n("display"), "user".to_string()), "display");
    assert_eq!(get_best_name_of_author(None, None, "user".to_string()), "user");
    assert_eq!(get_best_name_of_author(n(""), None, "user".to_string()), "");
}

#[test]
fn settings() {
    assert!(is_dev_mode(&vec!["bot".to_string(), "--dev".to_string()]));
    assert!(!is_dev_mode(&vec!["bot".to_string(), "--Dev".to_string(), "--dev ".to_string()]));
    assert!(!is_dev_mode(&vec![]));
    assert_eq!(get_discord_token_env_name(true), "MINTYBOT_DISCORD_TOKEN_DEV");
    assert_eq!(get_discord_token_env_name(false), "MINTYBOT_DISCORD_TOKEN");
}
