use serein::auth::{AuthState, Failure};
use serein::badge::{availability, supported};
use serein::client::{Command, State};
use serein::model::{Overview, Section, Snapshot};
use serein::ui::{
    account_note, badge_detail, reaction_label, section_status, Navigation, SectionStatus, Tab,
};

fn online_state() -> State {
    let mut state = State::default();
    state.auth = AuthState::Authenticated;
    state.gateway_connected = true;
    state
}

fn sections(commands: &[Command]) -> Vec<Section> {
    commands
        .iter()
        .map(|c| match c {
            Command::AccountNotificationSettings { section, change, .. } => {
                assert!(change.is_none());
                *section
            }
            Command::MemberSearch(_) => panic!("unexpected member search"),
        })
        .collect()
}

#[test]
fn opening_the_page_loads_the_overview_then_the_email_section() {
    let mut state = online_state();
    let mut page = Navigation::new(1);
    let first = page.sync(1, &mut state);
    assert_eq!(sections(&first), vec![Section::Overview]);
    assert!(page.overview_attempted);
    assert!(!page.email_attempted);
    // Nothing more while the overview request is in flight.
    assert!(page.sync(1, &mut state).is_empty());
    let Command::AccountNotificationSettings { request, .. } = &first[0] else {
        panic!()
    };
    let request = *request;
    state.apply_account_notification_settings(request, Ok(Snapshot::Overview(Overview::default())));
    let second = page.sync(1, &mut state);
    assert_eq!(sections(&second), vec![Section::Email]);
    assert!(page.email_attempted);
    assert!(page.sync(1, &mut state).is_empty());
}

#[test]
fn a_new_session_starts_the_page_afresh_and_retry_loads_again() {
    let mut state = State::default();
    let mut page = Navigation::new(1);
    page.active = Tab::Email;
    page.jump = Some(Tab::Badges);
    // Offline: both sections are tried, and fail, without a command.
    assert!(page.sync(1, &mut state).is_empty());
    assert!(page.overview_attempted && page.email_attempted);
    assert_eq!(state.notification_settings.overview_error, Some(Failure::Offline));
    assert_eq!(state.notification_settings.email_error, Some(Failure::Offline));
    assert!(page.sync(1, &mut state).is_empty());
    page.retry(Section::Email);
    assert!(page.overview_attempted && !page.email_attempted);
    state.auth = AuthState::Authenticated;
    state.gateway_connected = true;
    assert_eq!(sections(&page.sync(1, &mut state)), vec![Section::Email]);
    // The next session resets where the page is.
    let mut fresh = online_state();
    let commands = page.sync(2, &mut fresh);
    assert_eq!(sections(&commands), vec![Section::Overview]);
    assert_eq!(page.generation, 2);
    assert_eq!(page.active, Tab::Overview);
    assert_eq!(page.jump, None);
}

#[test]
fn the_demo_page_loads_locally() {
    let mut state = State::default();
    state.demo = true;
    let mut page = Navigation::new(0);
    assert!(page.sync(0, &mut state).is_empty());
    assert!(state.notification_settings.overview.is_some());
    assert!(state.notification_settings.email.is_some());
    assert!(state.notification_settings.pending.is_none());
}

#[test]
fn section_status_follows_the_settings() {
    let mut state = online_state();
    assert_eq!(
        section_status(&state, Section::Overview),
        SectionStatus {
            editable: false,
            saving: false,
            error: None
        }
    );
    let Some(Command::AccountNotificationSettings { request, .. }) =
        state.request_notification_settings(Section::Overview)
    else {
        panic!()
    };
    assert!(section_status(&state, Section::Overview).saving);
    assert!(!section_status(&state, Section::Email).saving);
    state.apply_account_notification_settings(request, Ok(Snapshot::Overview(Overview::default())));
    assert_eq!(
        section_status(&state, Section::Overview),
        SectionStatus {
            editable: true,
            saving: false,
            error: None
        }
    );
    let Some(Command::AccountNotificationSettings { request, .. }) =
        state.request_notification_settings(Section::Email)
    else {
        panic!()
    };
    assert!(!section_status(&state, Section::Overview).editable);
    state.apply_account_notification_settings(request, Err(Failure::Network));
    assert_eq!(section_status(&state, Section::Email).error, Some(Failure::Network));
    assert!(!section_status(&state, Section::Email).editable);
}

#[test]
fn page_texts() {
    assert_eq!(reaction_label(0), "All Messages");
    assert_eq!(reaction_label(1), "Only Direct Messages");
    assert_eq!(reaction_label(2), "Never");
    assert_eq!(reaction_label(7), "Custom setting");
    assert_eq!(account_note(true, "Notifications are on"), "Offline preview");
    assert_eq!(account_note(false, "Notifications are on"), "Notifications are on");
    assert_eq!(
        badge_detail(true),
        "Shows a red badge on the app icon when you have unread messages."
    );
    assert_eq!(
        badge_detail(false),
        "App icon badges are not available on this platform yet."
    );
}

#[test]
fn badges_exist_on_windows_alone() {
    assert!(supported("windows"));
    assert!(!supported("linux"));
    assert!(!supported("macos"));
    assert_eq!(availability("windows"), Ok(()));
    assert_eq!(
        availability("linux"),
        Err("App icon badges are currently available on Windows.")
    );
}

#[test]
fn a_jump_is_taken_once_and_only_for_its_section() {
    let mut page = Navigation::new(3);
    assert!(!page.take_jump(Tab::Email));
    page.jump = Some(Tab::Email);
    assert!(!page.take_jump(Tab::Sounds));
    assert_eq!(page.jump, Some(Tab::Email));
    assert!(page.take_jump(Tab::Email));
    assert_eq!(page.jump, None);
    assert!(!page.take_jump(Tab::Email));
}
