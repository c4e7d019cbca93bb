use standby_queue::queue::{
    join_notification, leave_notification, promotion_after_leave, QueueManager,
    QueueNotification, QueueOperationResult,
};

fn join_all(manager: &mut QueueManager, guild: &str, channel: &str, names: &[&str]) {
    for name in names {
        manager.join_queue(guild, channel, name);
    }
}

fn users_of(result: &QueueOperationResult) -> (Vec<String>, Vec<String>) {
    match result {
        QueueOperationResult::Success { users, waitlist, .. } => {
            (users.clone(), waitlist.clone())
        }
        _ => panic!("Expected success"),
    }
}

#[test]
fn scenario_five_stack_lifecycle() {
    let mut manager = QueueManager::new();

    match manager.join_queue("g", "c", "u1") {
        QueueOperationResult::Success { users, waitlist, notification, promoted_user } => {
            assert_eq!(users, vec!["u1".to_string()]);
            assert!(waitlist.is_empty());
            assert!(notification.is_none());
            assert!(promoted_user.is_none());
        }
        _ => panic!("Expected success"),
    }

    manager.join_queue("g", "c", "u2");
    manager.join_queue("g", "c", "u3");

    match manager.join_queue("g", "c", "u4") {
        QueueOperationResult::Success { notification, .. } => {
            assert!(matches!(notification, Some(QueueNotification::OneMore)));
        }
        _ => panic!("Expected success"),
    }

    match manager.join_queue("g", "c", "u5") {
        QueueOperationResult::Success { notification, .. } => match notification {
            Some(QueueNotification::Ready { users }) => {
                assert_eq!(users, vec!["u1", "u2", "u3", "u4", "u5"]);
            }
            _ => panic!("Expected Ready notification"),
        },
        _ => panic!("Expected success"),
    }

    match manager.join_queue("g", "c", "u6") {
        QueueOperationResult::Success { users, waitlist, notification, .. } => {
            assert_eq!(users.len(), 5);
            assert_eq!(waitlist, vec!["u6".to_string()]);
            assert!(notification.is_none());
        }
        _ => panic!("Expected success"),
    }

    match manager.leave_queue("g", "c", "u1") {
        QueueOperationResult::Success { users, waitlist, promoted_user, .. } => {
            assert_eq!(users, vec!["u2", "u3", "u4", "u5", "u6"]);
            assert!(waitlist.is_empty());
            assert_eq!(promoted_user, Some("u6".to_string()));
        }
        _ => panic!("Expected success"),
    }
}

#[test]
fn second_join_leaves_list_unchanged() {
    let mut manager = QueueManager::new();
    join_all(&mut manager, "g", "c", &["a", "b", "c"]);

    let before = manager.get_users("g", "c").unwrap();
    let result = manager.join_queue("g", "c", "b");
    assert!(matches!(result, QueueOperationResult::AlreadyInQueue));
    let after = manager.get_users("g", "c").unwrap();
    assert_eq!(before, after);
}

#[test]
fn partition_recombines_to_full_list() {
    let mut manager = QueueManager::new();
    let names = ["a", "b", "c", "d", "e", "f", "g"];
    join_all(&mut manager, "g", "c", &names);

    let result = manager.join_queue("g", "c", "h");
    let (users, waitlist) = users_of(&result);
    assert_eq!(users.len(), 5);
    let mut all = users.clone();
    all.extend(waitlist.clone());
    assert_eq!(all, manager.get_users("g", "c").unwrap());
    assert_eq!(waitlist, vec!["f", "g", "h"]);
}

#[test]
fn promotion_only_for_active_departures() {
    let mut manager = QueueManager::new();
    join_all(&mut manager, "g", "c", &["a", "b", "c", "d", "e", "f"]);

    // The waitlisted member leaves: nobody is promoted.
    match manager.leave_queue("g", "c", "f") {
        QueueOperationResult::Success { promoted_user, waitlist, .. } => {
            assert!(promoted_user.is_none());
            assert!(waitlist.is_empty());
        }
        _ => panic!("Expected success"),
    }

    // Refill to six and let an active member leave: the sixth is promoted.
    manager.join_queue("g", "c", "f");
    match manager.leave_queue("g", "c", "c") {
        QueueOperationResult::Success { promoted_user, .. } => {
            assert_eq!(promoted_user, Some("f".to_string()));
        }
        _ => panic!("Expected success"),
    }
}

#[test]
fn leave_at_threshold_emits_one_more() {
    let mut manager = QueueManager::new();
    join_all(&mut manager, "g", "c", &["a", "b", "c", "d", "e"]);

    match manager.leave_queue("g", "c", "e") {
        QueueOperationResult::Success { notification, .. } => {
            assert!(matches!(notification, Some(QueueNotification::OneMore)));
        }
        _ => panic!("Expected success"),
    }

    match manager.leave_queue("g", "c", "d") {
        QueueOperationResult::Success { notification, .. } => {
            assert!(notification.is_none());
        }
        _ => panic!("Expected success"),
    }
}

#[test]
fn close_twice_leaves_no_residue() {
    let mut manager = QueueManager::new();
    manager.join_queue("g", "c", "u1");
    manager.create_queue("g", "c", 42).unwrap();
    manager.set_notification_message_id("g", "c", 77).unwrap();

    assert!(manager.close_queue("g", "c").is_ok());
    assert!(manager.close_queue("g", "c").is_ok());

    assert_eq!(manager.queue_exists("g", "c"), Ok(false));
    assert!(manager.get_users("g", "c").unwrap().is_empty());
    assert_eq!(manager.get_message_id("g", "c"), Ok(None));
    assert_eq!(manager.get_notification_message_id("g", "c"), Ok(None));
}

#[test]
fn stale_binding_is_rejected_after_reopen() {
    let mut manager = QueueManager::new();
    manager.join_queue("g", "c", "u1");
    manager.create_queue("g", "c", 100).unwrap();
    assert!(manager.is_active_queue("g", "c", 100));

    manager.close_queue("g", "c").unwrap();
    manager.join_queue("g", "c", "u2");
    manager.create_queue("g", "c", 200).unwrap();

    assert!(!manager.is_active_queue("g", "c", 100));
    assert!(manager.is_active_queue("g", "c", 200));
}

#[test]
fn queue_exists_tracks_binding_not_members() {
    let mut manager = QueueManager::new();
    assert_eq!(manager.queue_exists("g", "c"), Ok(false));

    manager.join_queue("g", "c", "u1");
    assert_eq!(manager.queue_exists("g", "c"), Ok(false));

    manager.create_queue("g", "c", 5).unwrap();
    assert_eq!(manager.queue_exists("g", "c"), Ok(true));
    assert_eq!(manager.get_message_id("g", "c"), Ok(Some(5)));
}

#[test]
fn notification_binding_accessors() {
    let mut manager = QueueManager::new();
    assert_eq!(manager.get_notification_message_id("g", "c"), Ok(None));

    manager.set_notification_message_id("g", "c", 9).unwrap();
    assert_eq!(manager.get_notification_message_id("g", "c"), Ok(Some(9)));

    manager.delete_notification_message_id("g", "c").unwrap();
    assert_eq!(manager.get_notification_message_id("g", "c"), Ok(None));
}

#[test]
fn queues_are_independent_per_channel() {
    let mut manager = QueueManager::new();
    manager.join_queue("g", "c1", "u1");
    manager.join_queue("g", "c2", "u2");

    manager.close_queue("g", "c1").unwrap();
    assert!(manager.get_users("g", "c1").unwrap().is_empty());
    assert_eq!(manager.get_users("g", "c2").unwrap(), vec!["u2".to_string()]);
}

#[test]
fn last_action_tracks_joins_and_departures() {
    let mut manager = QueueManager::new();
    assert!(manager.get_last_action().is_none());

    manager.join_queue("g", "c", "u1");
    assert_eq!(manager.get_last_action(), Some("<@u1> joined!"));

    manager.leave_queue("g", "c", "u1");
    assert_eq!(manager.get_last_action(), Some("<@u1> left!"));
}

#[test]
fn kick_matches_display_name_case_insensitively() {
    let mut manager = QueueManager::new();
    join_all(&mut manager, "g", "c", &["1", "2"]);
    let roster = vec![
        ("1".to_string(), "Alice".to_string()),
        ("2".to_string(), "Bob".to_string()),
    ];

    match manager.kick_user("g", "c", "LIC", &roster) {
        QueueOperationResult::Success { users, .. } => {
            assert_eq!(users, vec!["2".to_string()]);
        }
        _ => panic!("Expected success"),
    }
    assert_eq!(manager.get_users("g", "c").unwrap(), vec!["2".to_string()]);
}

#[test]
fn kick_without_match_changes_nothing() {
    let mut manager = QueueManager::new();
    join_all(&mut manager, "g", "c", &["1", "2"]);
    let roster = vec![
        ("1".to_string(), "Alice".to_string()),
        ("2".to_string(), "Bob".to_string()),
    ];

    let result = manager.kick_user("g", "c", "zed", &roster);
    assert!(matches!(result, QueueOperationResult::NotInQueue));
    assert_eq!(manager.get_users("g", "c").unwrap().len(), 2);
}

#[test]
fn kick_ambiguity_first_roster_match_wins() {
    let mut manager = QueueManager::new();
    join_all(&mut manager, "g", "c", &["1", "2"]);
    let roster = vec![
        ("1".to_string(), "Anna".to_string()),
        ("2".to_string(), "Hannah".to_string()),
    ];

    match manager.kick_user("g", "c", "an", &roster) {
        QueueOperationResult::Success { users, .. } => {
            assert_eq!(users, vec!["2".to_string()]);
        }
        _ => panic!("Expected success"),
    }
}

#[test]
fn kick_of_unqueued_member_is_not_in_queue() {
    let mut manager = QueueManager::new();
    manager.join_queue("g", "c", "1");
    let roster = vec![("9".to_string(), "Ghost".to_string())];

    let result = manager.kick_user("g", "c", "ghost", &roster);
    assert!(matches!(result, QueueOperationResult::NotInQueue));
    assert_eq!(manager.get_users("g", "c").unwrap().len(), 1);
}

#[test]
fn split_queue_edges() {
    let five: Vec<String> = (1..=5).map(|i| i.to_string()).collect();
    let (users, waitlist) = QueueManager::split_queue(five.clone());
    assert_eq!(users, five);
    assert!(waitlist.is_empty());

    let (users, waitlist) = QueueManager::split_queue(Vec::new());
    assert!(users.is_empty());
    assert!(waitlist.is_empty());

    let six: Vec<String> = (1..=6).map(|i| i.to_string()).collect();
    let (users, waitlist) = QueueManager::split_queue(six);
    assert_eq!(users.len(), 5);
    assert_eq!(waitlist, vec!["6".to_string()]);
}

#[test]
fn join_notification_fires_only_at_thresholds() {
    let active: Vec<String> = (1..=4).map(|i| i.to_string()).collect();
    assert!(matches!(
        join_notification(4, &active),
        Some(QueueNotification::OneMore)
    ));

    let active: Vec<String> = (1..=5).map(|i| i.to_string()).collect();
    match join_notification(5, &active) {
        Some(QueueNotification::Ready { users }) => assert_eq!(users.len(), 5),
        _ => panic!("Expected Ready"),
    }

    // A sixth join keeps the queue full but must stay silent.
    assert!(join_notification(6, &active).is_none());
    assert!(join_notification(3, &active).is_none());
}

#[test]
fn leave_notification_fires_at_threshold_only() {
    let four: Vec<String> = (1..=4).map(|i| i.to_string()).collect();
    assert!(matches!(
        leave_notification(&four),
        Some(QueueNotification::OneMore)
    ));
    let three: Vec<String> = (1..=3).map(|i| i.to_string()).collect();
    assert!(leave_notification(&three).is_none());
}

#[test]
fn promotion_rule_on_plain_values() {
    let active: Vec<String> = (1..=5).map(|i| i.to_string()).collect();
    assert_eq!(promotion_after_leave(0, 6, &active), Some("5".to_string()));
    assert_eq!(promotion_after_leave(4, 6, &active), Some("5".to_string()));
    assert_eq!(promotion_after_leave(5, 6, &active), None);
    assert_eq!(promotion_after_leave(0, 5, &active), None);
}

#[test]
fn ready_message_text_is_exact() {
    let ready = QueueNotification::Ready {
        users: vec!["user1".to_string(), "user2".to_string()],
    };
    assert_eq!(
        ready.to_message(),
        "There are enough users for a game!\n<@user1>, <@user2>"
    );
}
