use serein::badge::dot;
use serein::captcha::{
    capability, expired, ipc_message, new_capability, own_origin, page_status, page_text,
    receive_ipc, theme, visible, IpcOutcome, Mailbox,
};
use serein::sounds::{output_config_accepted, Sounds};
use serein::ui::Tab;

#[test]
fn badge_has_transparent_corners_and_red_center() {
    let (mask, pixels) = dot();
    assert_eq!(pixels[..4], [0; 4]);
    assert_eq!(pixels[544..548], [74, 70, 237, 255]);
    assert_ne!(mask[0] & 128, 0);
    assert_eq!(mask[16] & 1, 0);
}

#[test]
fn badge_dot_is_symmetric_and_round() {
    let (mask, pixels) = dot();
    let covered = |x: usize, y: usize| mask[y * 2 + x / 8] & (1 << (7 - x % 8)) == 0;
    let mut count = 0;
    for y in 0..16 {
        for x in 0..16 {
            assert_eq!(covered(x, y), covered(15 - x, y));
            assert_eq!(covered(x, y), covered(x, 15 - y));
            let p = (y * 16 + x) * 4;
            assert_eq!(pixels[p + 3] == 255, covered(x, y));
            if covered(x, y) {
                count += 1;
            }
        }
    }
    assert!(!covered(0, 7) && covered(1, 7) && !covered(0, 0) && !covered(15, 15));
    assert_eq!(count, 156);
}

#[test]
fn ipc_is_restricted_to_the_local_verification_page() {
    assert!(own_origin("https://serein-captcha.verification.invalid/"));
    for url in [
        "https://discord.com/",
        "https://serein-captcha.verification.invalid.evil.test/",
        "http://serein-captcha.verification.invalid/",
        "https://user@serein-captcha.verification.invalid/",
        "https://serein-captcha.verification.invalid:444/",
        "https://serein-captcha.verification.invalid/other",
    ] {
        assert!(!own_origin(url));
    }
}

#[test]
fn own_origin_accepts_the_explicit_default_port_and_refuses_queries() {
    assert!(own_origin("https://serein-captcha.verification.invalid:443/"));
    assert!(!own_origin("https://serein-captcha.verification.invalid/?a=1"));
    assert!(!own_origin("https://:secret@serein-captcha.verification.invalid/"));
    assert!(!own_origin("not a url"));
}

#[test]
fn sound_status_follows_the_current_request() {
    let mut sounds = Sounds::default();
    assert_eq!(sounds.status(), "");
    let first = sounds.begin();
    assert_eq!(sounds.status(), "Playing notification sound...");
    let second = sounds.begin();
    assert_ne!(first, second);
    sounds.failed(first);
    assert_eq!(sounds.status(), "Playing notification sound...");
    sounds.finished(second);
    assert_eq!(sounds.status(), "");
    let third = sounds.begin();
    sounds.failed(third);
    assert_eq!(
        sounds.status(),
        "Audio output unavailable. Check your system sound settings."
    );
    sounds.stop();
    assert_eq!(sounds.status(), "");
    assert!(!sounds.is_current(third));
}

#[test]
fn settings_tabs_in_page_order() {
    let labels: Vec<&str> = Tab::all().iter().map(|t| t.label()).collect();
    assert_eq!(labels, vec!["Overview", "Sounds", "Badges", "Email"]);
    assert_eq!(Tab::default(), Tab::Overview);
}

#[test]
fn capability_is_hex_then_a_colon() {
    let mut random = [0u8; 32];
    random[0] = 0xab;
    random[1] = 0x05;
    random[31] = 0xff;
    let c = capability(&random);
    assert_eq!(c.len(), 65);
    assert!(c.starts_with("ab05"));
    assert!(c.ends_with("ff:"));
    assert_eq!(&c[4..62], "0".repeat(58));
    let fresh = new_capability().unwrap();
    assert_eq!(fresh.len(), 65);
    assert!(fresh.ends_with(':'));
    assert!(fresh[..64]
        .chars()
        .all(|ch| ch.is_ascii_digit() || ('a'..='f').contains(&ch)));
}

#[test]
fn the_local_page_is_served_for_its_own_address_only() {
    assert_eq!(page_status("GET", "serein-captcha://verification.invalid/"), 200);
    assert_eq!(page_status("POST", "serein-captcha://verification.invalid/"), 404);
    assert_eq!(page_status("GET", "serein-captcha://verification.invalid/x"), 404);
    let dark = theme(true);
    assert_eq!((dark.name, dark.background, dark.foreground), ("dark", "#18191c", "#dbdee1"));
    let light = theme(false);
    assert_eq!((light.name, light.background, light.foreground), ("light", "#f7f8fa", "#313338"));
    assert!(visible(500, 400));
    assert!(!visible(0, 400));
    assert!(!visible(500, 0));
    assert!(!expired(299));
    assert!(expired(300));
}

#[test]
fn messages_are_heard_from_the_own_page_with_the_capability_only() {
    let page = "https://serein-captcha.verification.invalid/";
    let cap = "00ff:";
    let read = |uri: &str, body: &str| {
        let mut body = body.to_string();
        let r = ipc_message(uri, &mut body, cap, |v: &str| !v.is_empty() && v != "refused");
        assert!(body.is_empty());
        r
    };
    match read(page, "00ff:verified:pass-code") {
        Some(IpcOutcome::Verified(v)) => assert_eq!(v, "pass-code"),
        _ => panic!(),
    }
    match read(page, "00ff:cancelled:") {
        Some(IpcOutcome::Failed(m)) => assert_eq!(m, "Verification cancelled."),
        _ => panic!(),
    }
    match read(page, "00ff:expired:") {
        Some(IpcOutcome::Failed(m)) => assert_eq!(m, "Verification expired. Please try again."),
        _ => panic!(),
    }
    match read(page, "00ff:error:") {
        Some(IpcOutcome::Failed(m)) => assert_eq!(
            m,
            "Verification could not load. Try again or open the invite in Discord."
        ),
        _ => panic!(),
    }
    assert!(read(page, "00ff:verified:refused").is_none());
    assert!(read(page, "00ff:verified:").is_none());
    assert!(read(page, "00ff:other:").is_none());
    assert!(read(page, "00fe:verified:x").is_none());
    assert!(read("https://discord.com/", "00ff:verified:x").is_none());
    let long = format!("00ff:verified:{}", "x".repeat(8270));
    assert!(read(page, &long).is_none());
    let edge = format!("00ff:verified:{}", "x".repeat(8270 - 14));
    assert!(matches!(read(page, &edge), Some(IpcOutcome::Verified(_))));
}

#[test]
fn accepted_output_formats() {
    assert!(output_config_accepted(48000, 2));
    assert!(output_config_accepted(8000, 1));
    assert!(output_config_accepted(192000, 8));
    assert!(!output_config_accepted(7999, 2));
    assert!(!output_config_accepted(192001, 2));
    assert!(!output_config_accepted(48000, 0));
    assert!(!output_config_accepted(48000, 9));
}

#[test]
fn the_mailbox_keeps_one_result_and_wakes_for_it() {
    let page = "https://serein-captcha.verification.invalid/";
    let accepts = |v: &str| v.len() >= 4;
    let mut mailbox = Mailbox::new();
    let mut body = "ab:verified:code".to_string();
    assert!(receive_ipc(&mut mailbox, page, &mut body, "ab:", accepts));
    assert!(body.is_empty());
    // The slot is taken: a second result is dropped, without waking.
    let mut body = "ab:cancelled:".to_string();
    assert!(!receive_ipc(&mut mailbox, page, &mut body, "ab:", accepts));
    match mailbox.poll() {
        Some(IpcOutcome::Verified(v)) => assert_eq!(v, "code"),
        _ => panic!(),
    }
    assert!(mailbox.poll().is_none());
    // A refused passcode, or a message from elsewhere, is not heard.
    let mut body = "ab:verified:abc".to_string();
    assert!(!receive_ipc(&mut mailbox, page, &mut body, "ab:", accepts));
    let mut body = "ab:expired:".to_string();
    assert!(!receive_ipc(&mut mailbox, "https://discord.com/", &mut body, "ab:", accepts));
    assert!(mailbox.poll().is_none());
    let mut body = "ab:expired:".to_string();
    assert!(receive_ipc(&mut mailbox, page, &mut body, "ab:", accepts));
    match mailbox.poll() {
        Some(IpcOutcome::Failed(m)) => assert_eq!(m, "Verification expired. Please try again."),
        _ => panic!(),
    }
}

#[test]
fn page_text_puts_in_the_theme() {
    let template = "<html class=\"__THEME__\" style=\"background:__BACKGROUND__;color:__FOREGROUND__\">__THEME__ __THEME_</html>";
    for dark in [true, false] {
        let t = theme(dark);
        let expected = template
            .replace("__THEME__", t.name)
            .replace("__BACKGROUND__", t.background)
            .replace("__FOREGROUND__", t.foreground);
        assert_eq!(page_text(template, dark), expected);
    }
    assert_eq!(
        page_text("__BACKGROUND____FOREGROUND__", true),
        "#18191c#dbdee1"
    );
    assert_eq!(page_text("no placeholders \u{1f980}", false), "no placeholders \u{1f980}");
}

#[test]
fn own_origin_parts() {
    let own = serein::captcha::UrlParts {
        scheme: "https".into(),
        host: Some("serein-captcha.verification.invalid".into()),
        port: Some(443),
        username: String::new(),
        password: None,
        path: "/".into(),
        query: None,
    };
    assert!(serein::captcha::origin_is_own(&own));
    let other = serein::captcha::UrlParts {
        port: Some(8443),
        ..own
    };
    assert!(!serein::captcha::origin_is_own(&other));
}
