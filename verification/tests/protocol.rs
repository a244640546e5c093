use base64::engine::general_purpose::STANDARD;
use base64::Engine;
use serde_json::Value;
use serein::model::{Change, Email, Id, SocialKind};
use serein::protocol::{
    decode_email, decode_response, email_patch, encode_patch, social_notification, EmailCategory,
    EmailResponse, NotificationItem, Settings, SettingsResponse, MAX_SETTINGS_RESPONSE,
};
use serein::wire::{fields, integer_wrapper, message, DecodeError};

/// Reads a settings-proto envelope as the network layer does.
fn settings_envelope(bytes: &[u8]) -> Option<SettingsResponse> {
    let value: Value = serde_json::from_slice(bytes).ok()?;
    let object = value.as_object()?;
    let settings = object.get("settings")?.as_str()?.to_string();
    let out_of_date = match object.get("out_of_date") {
        Some(v) => v.as_bool()?,
        None => false,
    };
    Some(SettingsResponse {
        settings,
        out_of_date,
    })
}

fn decode(bytes: &[u8]) -> Result<Settings, DecodeError> {
    decode_response(bytes.len(), settings_envelope(bytes))
}

fn response(wire: &[u8]) -> Vec<u8> {
    let mut object = serde_json::Map::new();
    object.insert("settings".into(), Value::String(STANDARD.encode(wire)));
    serde_json::to_vec(&Value::Object(object)).unwrap()
}

/// Reads an email-settings envelope as the network layer does.
fn email_envelope(bytes: &[u8]) -> Option<EmailResponse> {
    let value: Value = serde_json::from_slice(bytes).ok()?;
    let categories = value.as_object()?.get("categories")?.as_object()?;
    let flag = |key: &str| -> Option<bool> {
        match categories.get(key) {
            Some(v) => v.as_bool(),
            None => Some(false),
        }
    };
    Some(EmailResponse {
        categories: Email {
            communication: flag("communication")?,
            social: flag("social")?,
            announcements: flag("updates_and_announcements")?,
            tips: flag("tips")?,
            recommendations: flag("recommendations_and_events")?,
        },
    })
}

fn email(bytes: &[u8]) -> Result<Email, DecodeError> {
    decode_email(bytes.len(), email_envelope(bytes))
}

#[test]
fn notification_patch_retains_future_fields_and_checks_bounds() {
    let mut subtree = vec![56, 99];
    message(50, b"future", &mut subtree);
    integer_wrapper(12, 0, &mut subtree);
    let mut wire = vec![10, 2, 24, 7];
    message(7, &subtree, &mut wire);
    let current = decode(&response(&wire)).unwrap();
    assert!(!current.overview.friends_online);
    assert_eq!(current.overview.reactions, 99);
    let patch = STANDARD
        .decode(encode_patch(&current, Change::ProfileUpdates(false)).unwrap())
        .unwrap();
    let mut saved = vec![10, 2, 24, 8];
    saved.extend_from_slice(&patch);
    let saved = decode(&response(&saved)).unwrap();
    assert!(!saved.overview.profile_updates);
    assert_eq!(saved.overview.reactions, 99);
    assert!(saved.subtree().windows(6).any(|v| v == b"future"));
    let stream_patch = STANDARD
        .decode(encode_patch(&current, Change::Streaming(false)).unwrap())
        .unwrap();
    assert_eq!(fields(&stream_patch).unwrap()[0].number, 5);
    let mut saved_wire = wire.clone();
    saved_wire.extend_from_slice(&stream_patch);
    let streaming_saved = decode(&response(&saved_wire)).unwrap();
    assert!(!streaming_saved.overview.streaming);
    assert_eq!(streaming_saved.overview.reactions, 99);
    assert!(encode_patch(&current, Change::Reactions(99)).is_err());
    assert!(decode(&response(&[10, 0, 58, 4, 98, 0, 98, 0])).is_err());
    assert!(decode(&vec![0; MAX_SETTINGS_RESPONSE + 1]).is_err());
    let email =
        email(br#"{"categories":{"communication":true,"family_center_digest":true}}"#).unwrap();
    assert!(email.communication);
    let mut expected = email;
    Change::UnsubscribeMarketing.apply_email(&mut expected);
    assert!(expected.communication);
    assert_eq!(
        email_patch(Change::Tips(false)).unwrap().categories,
        vec![(EmailCategory::Tips, false)]
    );
    assert_eq!(EmailCategory::Tips.key(), "tips");
    assert!(self::email(br#"{}"#).is_err());
}

#[test]
fn the_version_is_required_and_bounded() {
    // No version field.
    assert!(decode(&response(&[])).is_err());
    // Version 0 where field 3 is absent.
    assert_eq!(decode(&response(&[10, 0])).unwrap().version, 0);
    // Version 7, defaults everywhere else.
    let s = decode(&response(&[10, 2, 24, 7])).unwrap();
    assert_eq!(s.version, 7);
    assert!(s.overview.streaming && s.overview.friends_online && s.overview.profile_updates);
    assert_eq!(s.overview.reactions, 0);
    // A version above 32 bits is refused.
    assert!(decode(&response(&[10, 6, 24, 128, 128, 128, 128, 16])).is_err());
    // Two version fields are refused.
    assert!(decode(&response(&[10, 0, 10, 0])).is_err());
    // An out-of-date response is refused.
    assert!(decode(br#"{"settings":"CgIYBw==","out_of_date":true}"#).is_err());
    // Text that is not base64 is refused.
    assert!(decode(br#"{"settings":"!!!"}"#).is_err());
}

#[test]
fn boolean_wrappers_hold_zero_or_one() {
    let mut wire = vec![10, 0];
    let mut subtree = Vec::new();
    integer_wrapper(14, 2, &mut subtree);
    message(7, &subtree, &mut wire);
    assert!(decode(&response(&wire)).is_err());
    let mut wire = vec![10, 0];
    let mut subtree = Vec::new();
    integer_wrapper(14, 0, &mut subtree);
    integer_wrapper(22, 1, &mut subtree);
    message(7, &subtree, &mut wire);
    let s = decode(&response(&wire)).unwrap();
    assert!(!s.overview.friend_anniversary);
    assert!(s.overview.upcoming_event);
}

#[test]
fn api_fixtures_decode() {
    // The fixtures of the account exchange: version 7, then the saved streaming patch.
    let s = decode(br#"{"settings":"CgIYBw=="}"#).unwrap();
    assert_eq!(s.version, 7);
    let patch = encode_patch(&s, Change::Streaming(false)).unwrap();
    assert_eq!(patch, "KgQ6AggA");
    let saved = decode(br#"{"settings":"CgIYCCoEOgIIAA=="}"#).unwrap();
    assert_eq!(saved.version, 8);
    assert!(!saved.overview.streaming);
    // Email changes have no settings-proto patch.
    assert!(encode_patch(&s, Change::Tips(false)).is_err());
}

#[test]
fn varints_and_messages_round_trip() {
    let mut out = Vec::new();
    serein::wire::push_varint(&mut out, 300);
    assert_eq!(out, vec![0xac, 0x02]);
    assert_eq!(serein::wire::read_varint(&out, 0), Some((300, 2)));
    let mut big = Vec::new();
    serein::wire::push_varint(&mut big, u64::MAX);
    assert_eq!(big.len(), 10);
    assert_eq!(serein::wire::read_varint(&big, 0), Some((u64::MAX, 10)));
    // Eleven continuation bytes are too many.
    assert_eq!(serein::wire::read_varint(&[0x80; 11], 0), None);
    let mut m = Vec::new();
    message(3, &[1, 2, 3], &mut m);
    assert_eq!(m, vec![26, 3, 1, 2, 3]);
    let fs = fields(&m).unwrap();
    assert_eq!(fs.len(), 1);
    assert_eq!((fs[0].number, fs[0].wire_type, fs[0].payload, fs[0].end), (3, 2, 2, 5));
    // A length past the end, a group, and field number 0 are refused.
    assert!(fields(&[26, 4, 1, 2, 3]).is_err());
    assert!(fields(&[11]).is_err());
    assert!(fields(&[2, 0]).is_err());
}

fn item(kind: &str, body: &str, acked: bool) -> Vec<u8> {
    let mut object = serde_json::Map::new();
    object.insert("id".into(), Value::String("1".into()));
    object.insert("type".into(), Value::String(kind.into()));
    object.insert("body".into(), Value::String(body.into()));
    object.insert("acked".into(), Value::Bool(acked));
    object.insert("completed".into(), Value::Bool(false));
    object.insert("guild_id".into(), Value::String("2".into()));
    serde_json::to_vec(&Value::Object(object)).unwrap()
}

/// Reads a notification-center item as the network layer does.
fn item_envelope(bytes: &[u8]) -> Option<NotificationItem> {
    let value: Value = serde_json::from_slice(bytes).ok()?;
    let object = value.as_object()?;
    let id = |v: &Value| -> Option<Id> { v.as_str()?.parse().ok().map(Id) };
    let optional_id = |key: &str| -> Option<Option<Id>> {
        match object.get(key) {
            None | Some(Value::Null) => Some(None),
            Some(v) => Some(Some(id(v)?)),
        }
    };
    Some(NotificationItem {
        id: id(object.get("id")?)?,
        kind: object.get("type")?.as_str()?.to_string(),
        body: object.get("body")?.as_str()?.to_string(),
        acked: object.get("acked")?.as_bool()?,
        completed: object.get("completed")?.as_bool()?,
        message_channel_id: optional_id("message_channel_id")?,
        guild_id: optional_id("guild_id")?,
        other_user: match object.get("other_user") {
            None | Some(Value::Null) => None,
            Some(u) => Some(id(u.as_object()?.get("id")?)?),
        },
    })
}

fn social(bytes: &[u8]) -> Result<Option<serein::model::SocialNotification>, DecodeError> {
    social_notification(bytes.len(), item_envelope(bytes))
}

#[test]
fn notification_center_known_only_and_bounded() {
    let shown = social(&item("go_live_push", "Synthetic stream", false))
        .unwrap()
        .unwrap();
    assert_eq!(shown.kind, SocialKind::Streaming);
    assert_eq!(shown.guild, Some(Id(2)));
    assert!(social(&item("go_live_push", "Synthetic stream", true))
        .unwrap()
        .is_none());
    assert!(social(&item("future", "Synthetic stream", false))
        .unwrap()
        .is_none());
    assert!(social(&item("reaction_sent", &"x".repeat(1025), false)).is_err());
}

#[test]
fn notification_bodies_lose_control_characters_but_line_breaks() {
    let shown = social(&item("scheduled_guild_event_started", "a\u{7}b\nc\u{85}", false))
        .unwrap()
        .unwrap();
    assert_eq!(shown.kind, SocialKind::UpcomingEvent);
    assert_eq!(shown.body, "ab\nc");
    assert!(social(&item("reaction_sent", "", false)).is_err());
    assert!(social(b"not json").is_err());
    assert!(social_notification(64 * 1024 + 1, item_envelope(&item("go_live_push", "x", false))).is_err());
}
