use serein::auth::{AuthState, Failure};
use serein::client::{Command, State};
use serein::model::{Change, Email, Overview, Section, Snapshot};

fn online_state() -> State {
    let mut state = State::default();
    state.auth = AuthState::Authenticated;
    state.gateway_connected = true;
    state
}

#[test]
fn notification_updates_wait_for_ack_and_demo_stays_offline() {
    let mut state = online_state();
    let Command::AccountNotificationSettings { request, .. } = state
        .request_notification_settings(Section::Overview)
        .unwrap()
    else {
        panic!()
    };
    state.apply_account_notification_settings(
        request + 1,
        Ok(Snapshot::Overview(Overview::default())),
    );
    assert!(state.notification_settings.overview.is_none());
    state.apply_account_notification_settings(request, Ok(Snapshot::Overview(Overview::default())));
    let command = state
        .update_notification_settings(Change::Streaming(false))
        .unwrap();
    assert!(state.notification_settings.overview.unwrap().streaming);
    state.command_rejected(command);
    assert!(state.notification_settings.pending.is_none());
    assert!(state.notification_settings.error.is_some());
    state.logout();
    assert!(state.notification_settings.overview.is_none());
    state.demo = true;
    assert!(state
        .request_notification_settings(Section::Overview)
        .is_none());
    assert!(state
        .update_notification_settings(Change::Streaming(false))
        .is_none());
    assert!(!state.notification_settings.overview.unwrap().streaming);
}

#[test]
fn offline_requests_fail_without_a_command() {
    let mut state = State::default();
    assert!(state.request_notification_settings(Section::Email).is_none());
    assert_eq!(state.notification_settings.error, Some(Failure::Offline));
    assert_eq!(state.notification_settings.email_error, Some(Failure::Offline));
    assert_eq!(state.notification_settings.overview_error, None);
    assert!(state.notification_settings.pending.is_none());
}

#[test]
fn a_second_request_waits_for_the_first() {
    let mut state = online_state();
    assert!(state.request_notification_settings(Section::Overview).is_some());
    assert_eq!(state.notification_settings.pending, Some(Section::Overview));
    assert!(state.request_notification_settings(Section::Email).is_none());
    assert_eq!(state.notification_settings.pending, Some(Section::Overview));
}

#[test]
fn request_identities_increase_and_stale_answers_are_ignored() {
    let mut state = online_state();
    let Some(Command::AccountNotificationSettings { request: first, section, change }) =
        state.request_notification_settings(Section::Email)
    else {
        panic!()
    };
    assert_eq!(first, 1);
    assert_eq!(section, Section::Email);
    assert_eq!(change, None);
    state.apply_account_notification_settings(first, Ok(Snapshot::Email(Email::default())));
    let Some(Command::AccountNotificationSettings { request: second, .. }) =
        state.update_notification_settings(Change::Tips(true))
    else {
        panic!()
    };
    assert_eq!(second, 2);
    state.apply_account_notification_settings(first, Err(Failure::Network));
    assert_eq!(state.notification_settings.pending, Some(Section::Email));
    assert_eq!(state.notification_settings.error, None);
}

#[test]
fn a_different_section_in_the_answer_is_a_failure() {
    let mut state = online_state();
    let Some(Command::AccountNotificationSettings { request, .. }) =
        state.request_notification_settings(Section::Overview)
    else {
        panic!()
    };
    state.apply_account_notification_settings(request, Ok(Snapshot::Email(Email::default())));
    assert!(state.notification_settings.email.is_none());
    assert!(state.notification_settings.overview.is_none());
    assert_eq!(state.notification_settings.error, Some(Failure::WrongSection));
    assert_eq!(state.notification_settings.overview_error, Some(Failure::WrongSection));
}

#[test]
fn an_expired_session_ends_on_the_answer() {
    let mut state = online_state();
    let Some(Command::AccountNotificationSettings { request, .. }) =
        state.request_notification_settings(Section::Overview)
    else {
        panic!()
    };
    state.apply_account_notification_settings(request, Err(Failure::Expired));
    assert_eq!(state.auth, AuthState::Failed(Failure::Expired));
    assert!(!state.gateway_connected);
    assert!(state.notification_settings.pending.is_none());
}

#[test]
fn invalid_or_unloaded_updates_are_dropped() {
    let mut state = online_state();
    assert!(state.update_notification_settings(Change::Tips(true)).is_none());
    assert!(state.notification_settings.pending.is_none());
    state.demo = true;
    assert!(state.request_notification_settings(Section::Overview).is_none());
    assert!(state.update_notification_settings(Change::Reactions(3)).is_none());
    assert_eq!(state.notification_settings.overview.unwrap().reactions, 0);
    assert!(state.update_notification_settings(Change::Reactions(2)).is_none());
    assert_eq!(state.notification_settings.overview.unwrap().reactions, 2);
}

#[test]
fn interruption_drops_the_request_and_the_queue() {
    let mut state = online_state();
    assert!(state.request_notification_settings(Section::Email).is_some());
    state.interrupt_notification_settings(Failure::Network);
    assert!(state.notification_settings.pending.is_none());
    assert_eq!(state.notification_settings.email_error, Some(Failure::Network));
    assert_eq!(state.notification_settings.social_len(), 0);
}

#[test]
fn failure_labels_and_session_ends() {
    assert_eq!(
        Failure::Offline.label(),
        "Connect to Discord to update notification settings"
    );
    assert!(Failure::Expired.ends_session());
    assert!(Failure::Capacity.ends_session());
    assert!(!Failure::Network.ends_session());
}
