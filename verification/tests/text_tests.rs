use standby_queue::messages::{
    button_id, format_user_mentions, parse_button_action, queue_description, usize_to_string,
    ButtonAction,
};
use standby_queue::store::{message_key, notification_key, queue_key};
use standby_queue::text::{
    autocomplete_matches, chars_vec, contains_chars, name_contains_fragment, resolve_kick_target,
    str_eq, AUTOCOMPLETE_LIMIT,
};
use standby_queue::translations::{get_random_one_more, one_more_translation, ONE_MORE_COUNT};

#[test]
fn str_eq_compares_characters() {
    assert!(str_eq("", ""));
    assert!(str_eq("abc", "abc"));
    assert!(!str_eq("abc", "abd"));
    assert!(!str_eq("abc", "ab"));
    assert!(str_eq("grüße", "grüße"));
}

#[test]
fn substring_search_on_char_vectors() {
    let hay = chars_vec("hello world");
    assert!(contains_chars(&hay, &chars_vec("world")));
    assert!(contains_chars(&hay, &chars_vec("")));
    assert!(contains_chars(&hay, &chars_vec("hello world")));
    assert!(!contains_chars(&hay, &chars_vec("worlds")));
    assert!(!contains_chars(&chars_vec("ab"), &chars_vec("abc")));
}

#[test]
fn name_matching_ignores_case() {
    assert!(name_contains_fragment("Alice", "LIC"));
    assert!(name_contains_fragment("ALICE", "alice"));
    assert!(!name_contains_fragment("Alice", "bob"));
}

#[test]
fn resolve_picks_first_match_in_roster_order() {
    let roster = vec![
        ("1".to_string(), "Anna".to_string()),
        ("2".to_string(), "Hannah".to_string()),
    ];
    assert_eq!(resolve_kick_target("an", &roster), Some("1".to_string()));
    assert_eq!(resolve_kick_target("HANN", &roster), Some("2".to_string()));
    assert_eq!(resolve_kick_target("zed", &roster), None);
}

#[test]
fn autocomplete_filters_and_caps() {
    let names: Vec<String> = vec![
        "Alice".to_string(),
        "Bob".to_string(),
        "alina".to_string(),
    ];
    assert_eq!(
        autocomplete_matches(&names, "AL"),
        vec!["Alice".to_string(), "alina".to_string()]
    );
    assert_eq!(autocomplete_matches(&names, ""), names);

    let many: Vec<String> = (0..40).map(|i| format!("player{i}")).collect();
    let capped = autocomplete_matches(&many, "player");
    assert_eq!(capped.len(), AUTOCOMPLETE_LIMIT);
    assert_eq!(capped[..], many[..AUTOCOMPLETE_LIMIT]);
}

#[test]
fn mentions_are_joined_one_per_line() {
    let ids = vec!["1".to_string(), "2".to_string()];
    assert_eq!(format_user_mentions(&ids), "<@1>\n<@2>");
    assert_eq!(format_user_mentions(&vec!["7".to_string()]), "<@7>");
    assert_eq!(format_user_mentions(&Vec::new()), "");
}

#[test]
fn button_ids_round_trip() {
    for action in [
        ButtonAction::Join,
        ButtonAction::Leave,
        ButtonAction::Close,
        ButtonAction::Open,
    ] {
        assert_eq!(parse_button_action(button_id(action)), Some(action));
    }
    assert_eq!(parse_button_action("join_queue_disabled"), None);
    assert_eq!(parse_button_action(""), None);
}

#[test]
fn storage_keys_join_identifiers_with_separator() {
    assert_eq!(message_key("g", "c"), "g.c");
    assert_eq!(queue_key("g", "c"), "g.c.queue");
    assert_eq!(notification_key("g", "c"), "g.c.notification");
}

#[test]
fn first_translation_is_the_english_phrase() {
    assert_eq!(one_more_translation(0), ("One more", "English"));
}

#[test]
fn random_translation_is_well_formed_and_varies() {
    let mut languages = std::collections::BTreeSet::new();
    for _ in 0..400 {
        let (phrase, language) = get_random_one_more();
        assert!(!phrase.is_empty());
        assert!(!language.is_empty());
        languages.insert(language);
    }
    assert!(ONE_MORE_COUNT > 1);
    assert!(
        languages.len() > 1,
        "a random index in bounds should reach more than one entry"
    );
}

#[test]
fn decimal_rendering_is_exact() {
    assert_eq!(usize_to_string(0), "0");
    assert_eq!(usize_to_string(7), "7");
    assert_eq!(usize_to_string(10), "10");
    assert_eq!(usize_to_string(42), "42");
    assert_eq!(usize_to_string(1234567890), "1234567890");
}

#[test]
fn queue_description_text_is_exact() {
    let users = vec!["a".to_string(), "b".to_string()];
    let waitlist = vec!["c".to_string()];
    assert_eq!(
        queue_description(&users, &waitlist, Some("<@a> joined!")),
        "<@a> joined!\n### Queued users (2)\n<@a>\n<@b>\n\n### Waitlist (1)\n<@c>"
    );
    assert_eq!(
        queue_description(&Vec::new(), &Vec::new(), None),
        "No users in queue"
    );
}
