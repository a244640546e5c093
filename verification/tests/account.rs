use serein::account::{
    account_email_current, account_email_saved, account_overview_current,
    account_overview_saved, account_settings_fetch, EmailStep, OverviewStep, EMAIL_PATH,
    SETTINGS_PATH,
};
use serein::auth::Failure;
use serein::model::{Change, Email, Overview, Section, Snapshot};
use serein::protocol::{decode_response, EmailCategory, SettingsResponse, MAX_EMAIL_RESPONSE};
use serein::wire::DecodeError;

fn settings(b64: &str) -> Result<serein::protocol::Settings, DecodeError> {
    decode_response(
        b64.len() + 16,
        Some(SettingsResponse {
            settings: b64.into(),
            out_of_date: false,
        }),
    )
}

#[test]
fn account_reads_route_by_section() {
    let fetch = account_settings_fetch(Section::Overview, None).unwrap();
    assert_eq!(fetch.path, SETTINGS_PATH);
    let fetch = account_settings_fetch(Section::Email, Some(Change::Tips(false))).unwrap();
    assert_eq!(fetch.path, EMAIL_PATH);
    assert_eq!(fetch.limit, MAX_EMAIL_RESPONSE);
    assert_eq!(
        account_settings_fetch(Section::Email, Some(Change::Streaming(false))).err(),
        Some(Failure::Protocol)
    );
    assert_eq!(
        account_settings_fetch(Section::Overview, Some(Change::Reactions(3))).err(),
        Some(Failure::Protocol)
    );
}

#[test]
fn overview_writes_are_minimal_and_confirmed() {
    // A change that changes nothing is answered without a write.
    match account_overview_current(Some(Change::Streaming(true)), settings("CgIYBw==")) {
        OverviewStep::Done(Ok(Snapshot::Overview(v))) => assert!(v.streaming),
        _ => panic!(),
    }
    let OverviewStep::Patch {
        settings: patch,
        version,
        wanted,
    } = account_overview_current(Some(Change::Streaming(false)), settings("CgIYBw=="))
    else {
        panic!()
    };
    assert_eq!(patch, "KgQ6AggA");
    assert_eq!(version, 7);
    assert!(!wanted.streaming);
    assert_eq!(
        account_overview_saved(wanted, settings("CgIYCCoEOgIIAA==")),
        Ok(Snapshot::Overview(wanted))
    );
    assert_eq!(
        account_overview_saved(wanted, settings("CgIYBw==")),
        Err(Failure::Unconfirmed)
    );
    match account_overview_current(None, Err(DecodeError)) {
        OverviewStep::Done(Err(Failure::Unavailable)) => {}
        _ => panic!(),
    }
}

#[test]
fn email_writes_are_minimal_and_confirmed() {
    let all = Email {
        communication: true,
        social: true,
        announcements: true,
        tips: true,
        recommendations: true,
    };
    let EmailStep::Patch { patch, wanted } =
        account_email_current(Some(Change::UnsubscribeMarketing), Ok(all))
    else {
        panic!()
    };
    assert_eq!(
        patch.categories,
        vec![
            (EmailCategory::UpdatesAndAnnouncements, false),
            (EmailCategory::Tips, false),
            (EmailCategory::RecommendationsAndEvents, false),
        ]
    );
    assert!(wanted.communication && wanted.social);
    assert!(!wanted.tips && !wanted.announcements && !wanted.recommendations);
    assert_eq!(
        account_email_saved(wanted, Ok(wanted)),
        Ok(Snapshot::Email(wanted))
    );
    // Discord kept tips on: the write is not confirmed.
    let EmailStep::Patch { wanted, .. } = account_email_current(Some(Change::Tips(false)), Ok(all))
    else {
        panic!()
    };
    assert_eq!(account_email_saved(wanted, Ok(all)), Err(Failure::Unconfirmed));
    match account_email_current(Some(Change::Tips(true)), Ok(all)) {
        EmailStep::Done(Ok(Snapshot::Email(v))) => assert_eq!(v, all),
        _ => panic!(),
    }
    let _ = Overview::default();
}
