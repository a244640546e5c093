use serein::client::{PreferenceEvent, PresenceUpdate, Scope, State, User, UserEvent};
use serein::model::{Id, Overview, SocialKind, SocialNotification};

#[test]
fn social_queue_deduplicates_bounds_and_rechecks_preferences() {
    let mut state = State::default();
    state.gateway_connected = true;
    state.notification_settings.overview = Some(Overview::default());
    state.apply_notification_preferences(PreferenceEvent::Presence(Some(false)));
    state.apply_notification_preferences(PreferenceEvent::Settings {
        entries: vec![Scope {
            guild: Some(Id(2)),
            muted: Some(false),
        }],
        replace: true,
    });
    let item = |n| SocialNotification {
        id: Id(n),
        kind: SocialKind::Streaming,
        body: "Synthetic".into(),
        guild: Some(Id(2)),
        channel: None,
        other_user: None,
    };
    state.receive_social_notification(item(1));
    state.receive_social_notification(item(1));
    assert!(state.take_social_notification().is_some());
    assert!(state.take_social_notification().is_none());
    for n in 2..200 {
        state.receive_social_notification(item(n));
    }
    assert_eq!(state.notification_settings.social_len(), 16);
    assert_eq!(state.notification_settings.seen_len(), 128);
    state.notification_settings.overview.as_mut().unwrap().streaming = false;
    assert!(state.take_social_notification().is_none());
    state.notification_settings.overview.as_mut().unwrap().streaming = true;
    state.receive_social_notification(item(201));
    state.apply_notification_preferences(PreferenceEvent::Presence(Some(true)));
    assert!(state.take_social_notification().is_none());
}

fn synthetic_user(name: &str) -> User {
    User {
        id: Id(9),
        name: name.into(),
    }
}

#[test]
fn received_friend_changes_skip_initial_snapshots_and_respect_toggles() {
    let mut state = State::default();
    state.gateway_connected = true;
    state.notification_settings.overview = Some(Overview::default());
    state.apply_notification_preferences(PreferenceEvent::Presence(Some(false)));
    state.apply_notification_preferences(PreferenceEvent::Settings {
        entries: vec![Scope {
            guild: None,
            muted: Some(false),
        }],
        replace: true,
    });
    state.apply_user_action(UserEvent::Relationships(Some(vec![(Id(9), false)])));
    state.apply_user_action(UserEvent::Friends(Some(vec![(
        synthetic_user("Synthetic"),
        "synthetic".into(),
    )])));
    let update = |status: &str| PresenceUpdate {
        user: Id(9),
        status: Some(status.into()),
    };
    state.apply_direct_presence(&[update("online")]);
    assert!(state.take_social_notification().is_none());
    state.apply_direct_presence(&[update("offline")]);
    state.apply_direct_presence(&[update("online")]);
    assert_eq!(
        state.take_social_notification().unwrap().kind,
        SocialKind::FriendsOnline
    );
    state.apply_direct_presence(&[update("online")]);
    assert!(state.take_social_notification().is_none());
    state.apply_user_action(UserEvent::FriendProfile((
        synthetic_user("Synthetic"),
        "synthetic".into(),
    )));
    assert!(state.take_social_notification().is_none());
    state.apply_user_action(UserEvent::FriendProfile((
        synthetic_user("Changed"),
        "synthetic".into(),
    )));
    assert_eq!(
        state.take_social_notification().unwrap().kind,
        SocialKind::ProfileUpdates
    );
    state.notification_settings.overview.as_mut().unwrap().friends_online = false;
    state.apply_direct_presence(&[update("offline")]);
    state.apply_direct_presence(&[update("online")]);
    assert!(state.take_social_notification().is_none());
}

#[test]
fn friend_notifications_carry_the_kind_title() {
    let mut state = State::default();
    state.notification_settings.overview = Some(Overview::default());
    state.apply_notification_preferences(PreferenceEvent::Presence(Some(false)));
    state.apply_notification_preferences(PreferenceEvent::Settings {
        entries: vec![Scope {
            guild: None,
            muted: Some(false),
        }],
        replace: true,
    });
    state.apply_user_action(UserEvent::Relationships(Some(vec![(Id(9), false)])));
    state.apply_user_action(UserEvent::Friends(Some(vec![(
        synthetic_user("Synthetic"),
        "synthetic".into(),
    )])));
    state.notify_friend_change(Id(9), SocialKind::FriendsOnline);
    let item = state.take_social_notification().unwrap();
    assert_eq!(item.body, "A friend came online");
    assert_eq!(item.other_user, Some(Id(9)));
    // A blocked user's changes are never notified.
    state.apply_user_action(UserEvent::Relationships(Some(vec![(Id(9), true)])));
    state.notify_friend_change(Id(9), SocialKind::FriendsOnline);
    assert!(state.take_social_notification().is_none());
    // Strangers are not notified either.
    state.notify_friend_change(Id(10), SocialKind::FriendsOnline);
    assert_eq!(state.notification_settings.social_len(), 0);
}

#[test]
fn long_bodies_and_muted_guilds_are_dropped() {
    let mut state = State::default();
    state.notification_settings.overview = Some(Overview::default());
    state.apply_notification_preferences(PreferenceEvent::Presence(Some(false)));
    state.apply_notification_preferences(PreferenceEvent::Settings {
        entries: vec![
            Scope {
                guild: Some(Id(2)),
                muted: Some(false),
            },
            Scope {
                guild: Some(Id(3)),
                muted: Some(true),
            },
        ],
        replace: true,
    });
    let item = |n, guild, body: String| SocialNotification {
        id: Id(n),
        kind: SocialKind::Reaction,
        body,
        guild: Some(Id(guild)),
        channel: None,
        other_user: None,
    };
    state.receive_social_notification(item(1, 2, "x".repeat(1025)));
    assert_eq!(state.notification_settings.seen_len(), 0);
    state.receive_social_notification(item(2, 3, "muted".into()));
    assert_eq!(state.notification_settings.seen_len(), 1);
    assert_eq!(state.notification_settings.social_len(), 0);
    // Reactions in guilds stop once only direct messages are wanted.
    state.notification_settings.overview.as_mut().unwrap().reactions = 1;
    state.receive_social_notification(item(3, 2, "reaction".into()));
    assert_eq!(state.notification_settings.social_len(), 0);
    state.notification_settings.overview.as_mut().unwrap().reactions = 0;
    state.receive_social_notification(item(4, 2, "reaction".into()));
    assert_eq!(state.notification_settings.social_len(), 1);
}

#[test]
fn social_notification_bytes_count_the_body_buffer() {
    let item = SocialNotification {
        id: Id(1),
        kind: SocialKind::Streaming,
        body: String::with_capacity(100),
        guild: None,
        channel: None,
        other_user: None,
    };
    assert_eq!(
        item.bytes(),
        std::mem::size_of::<SocialNotification>() + item.body.capacity()
    );
    assert_eq!(SocialKind::Streaming.title(), "A friend started streaming");
}

fn friend_state() -> State {
    let mut state = State::default();
    state.gateway_connected = true;
    state.notification_settings.overview = Some(Overview::default());
    state.apply_notification_preferences(PreferenceEvent::Presence(Some(false)));
    state.apply_notification_preferences(PreferenceEvent::Settings {
        entries: vec![Scope {
            guild: None,
            muted: Some(false),
        }],
        replace: true,
    });
    state.apply_user_action(UserEvent::Relationships(Some(vec![(Id(9), false)])));
    state.apply_user_action(UserEvent::Friends(Some(vec![(
        synthetic_user("Synthetic"),
        "synthetic".into(),
    )])));
    state
}

#[test]
fn measured_friend_notifications_fit_the_byte_budget_or_are_dropped() {
    let mut state = friend_state();
    state.notify_friend_change_measured(Id(9), SocialKind::FriendsOnline, 64);
    assert_eq!(state.notification_settings.social_len(), 1);
    let mut state = friend_state();
    state.notify_friend_change_measured(Id(9), SocialKind::FriendsOnline, 30 * 1024);
    assert_eq!(state.notification_settings.social_len(), 0);
    let mut state = friend_state();
    state.notify_friend_change_measured(Id(8), SocialKind::FriendsOnline, 64);
    assert_eq!(state.notification_settings.social_len(), 0);
}

#[test]
fn several_updates_notify_each_friend_that_comes_online() {
    let mut state = friend_state();
    let update = |status: &str| PresenceUpdate {
        user: Id(9),
        status: Some(status.into()),
    };
    let quiet = PresenceUpdate {
        user: Id(9),
        status: None,
    };
    state.apply_direct_presence(&[update("offline"), quiet, update("idle"), update("online")]);
    assert_eq!(state.friends[0].online, Some(true));
    assert_eq!(
        state.take_social_notification().unwrap().kind,
        SocialKind::FriendsOnline
    );
    assert!(state.take_social_notification().is_none());
}
