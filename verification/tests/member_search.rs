use serein::auth::{AuthState, Failure};
use serein::client::{Command, State};
use serein::member_search::{Channel, Member, Request};
use serein::model::Id;

fn selected_state() -> State {
    let mut state = State::default();
    state.auth = AuthState::Authenticated;
    state.gateway_connected = true;
    state.channels = vec![
        Channel {
            id: Id(5),
            guild: Some(Id(4)),
            viewable: true,
        },
        Channel {
            id: Id(6),
            guild: None,
            viewable: true,
        },
    ];
    state.selected = Some(Id(5));
    state
}

fn member(id: u64, name: &str) -> Member {
    Member {
        id: Id(id),
        name: name.into(),
    }
}

#[test]
fn member_search_starts_only_in_the_selected_guild_channel() {
    let mut state = selected_state();
    let Some(Command::MemberSearch(request)) = state.search_members(Id(5), "syn", 0) else {
        panic!()
    };
    assert_eq!(request.guild, Id(4));
    assert_eq!(request.nonce, 1);
    assert_eq!(state.member_search.request.as_ref(), Some(&request));
    assert!(state.search_members(Id(5), "syn", 1).is_none());
    assert!(state.search_members(Id(6), "syn", 0).is_none());
    assert!(state.search_members(Id(7), "syn", 0).is_none());
    // An invalid query still uses up a nonce, and starts nothing.
    assert!(state.search_members(Id(5), "", 0).is_none());
    assert_eq!(state.member_search_nonce, 2);
    assert!(state.search_members(Id(5), "a\u{1}", 0).is_none());
    assert!(state.search_members(Id(5), &"x".repeat(65), 0).is_none());
    assert_eq!(state.member_search.request.as_ref(), Some(&request));
}

#[test]
fn member_search_answers_are_checked() {
    let mut state = selected_state();
    let Some(Command::MemberSearch(request)) = state.search_members(Id(5), "syn", 0) else {
        panic!()
    };
    let stale = Request {
        nonce: 99,
        ..request.clone()
    };
    state.searched_members(stale, Ok(vec![member(1, "Synthetic")]));
    assert!(!state.member_search.finished);
    state.searched_members(request.clone(), Ok(vec![member(1, "Synthetic")]));
    assert!(state.member_search.finished);
    assert_eq!(state.member_search.rows.len(), 1);
    assert_eq!(state.member_search.error, None);

    let Some(Command::MemberSearch(request)) = state.search_members(Id(5), "syn", 0) else {
        panic!()
    };
    let many = (1..=101).map(|n| member(n, "m")).collect();
    state.searched_members(request.clone(), Ok(many));
    assert_eq!(
        state.member_search.error,
        Some("Member search exceeded its safety limit")
    );
    assert!(state.member_search.rows.is_empty());

    let Some(Command::MemberSearch(request)) = state.search_members(Id(5), "syn", 0) else {
        panic!()
    };
    state.searched_members(request.clone(), Ok(vec![member(0, "nobody")]));
    assert_eq!(
        state.member_search.error,
        Some("Member search exceeded its safety limit")
    );

    let Some(Command::MemberSearch(request)) = state.search_members(Id(5), "syn", 0) else {
        panic!()
    };
    state.command_rejected(Command::MemberSearch(request));
    assert_eq!(state.member_search.error, Some(Failure::Capacity.label()));
}

#[test]
fn member_limits() {
    assert!(member(1, "a").valid());
    assert!(!member(1, "").valid());
    assert!(!member(0, "a").valid());
    assert!(!member(1, &"x".repeat(513)).valid());
    assert_eq!(member(1, "abc").bytes(), 67);
    let request = Request {
        guild: Id(1),
        channel: Id(2),
        query: "ok".into(),
        nonce: 0,
        slot: 0,
    };
    assert!(request.valid());
    assert!(!Request {
        query: "\u{1f980}".repeat(65),
        ..request.clone()
    }
    .valid());
    assert!(Request {
        query: "\u{1f980}".repeat(64),
        ..request.clone()
    }
    .valid());
}
