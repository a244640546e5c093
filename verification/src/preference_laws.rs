//! What the preferences mean: which social notifications the reaction preference lets
//! through, which email category each email change writes, which wire field holds each
//! overview preference, which notification-center types are read as which kind, and where
//! member lookups may run.
use crate::client::{first_allowed, SettingsModel, State};
use crate::model::{Change, Email, Overview, SocialKind, SocialNotification};
use crate::protocol::{
    bool_nat, count_number, first_number, patch_target, spec_bool_wrapper, spec_email_patch,
    spec_flag, spec_item_refused, spec_item_shown, spec_overview, spec_social_kind,
    spec_streaming, spec_u32_field, EmailCategory, NotificationItem,
};
use crate::retention::{lemma_message_fields, lemma_reactions_field, lemma_wrapper_bool};
use crate::settings_laws::law_take_returns_allowed;
use crate::wire::{encode_varint, integer_wrapper_bytes, payload_of, spec_fields, FieldSpec};
use vstd::prelude::*;

verus! {

/// Whether a reaction may be shown under the reaction preference `pref`: 0 shows all
/// reactions, 1 only those outside guilds (direct messages), and any other value none.
pub open spec fn reaction_wanted(pref: u32, guild: Option<crate::model::Id>) -> bool {
    pref == 0 || (pref == 1 && guild is None)
}

/// A reaction is shown only as the reaction preference says: with "Never" (2), or "Only
/// direct messages" (1) and a guild, it is never allowed; with "All messages" (0), or 1 and
/// no guild, it is allowed wherever the sender is not blocked and the scope is not muted.
pub proof fn law_reactions_follow_their_preference(s: State, item: SocialNotification)
    requires
        item.kind is Reaction,
        s.notification_settings@.overview is Some,
    ensures
        !reaction_wanted(s.notification_settings@.overview->0.reactions, item.guild)
            ==> !s.spec_allowed(item),
        reaction_wanted(s.notification_settings@.overview->0.reactions, item.guild) ==> (
        s.spec_allowed(item) <==> (!(item.other_user matches Some(u) && s.spec_user_blocked(u)
            == Some(true)) && s.spec_scope_allowed(item.channel, item.guild))),
        s.notification_settings@.overview->0.reactions == 2 ==> !s.spec_allowed(item),
{
}

/// The toggle that gates a social notification of each kind but reactions.
pub open spec fn kind_toggle(o: Overview, kind: SocialKind) -> bool {
    match kind {
        SocialKind::Streaming => o.streaming,
        SocialKind::FriendsOnline => o.friends_online,
        SocialKind::ProfileUpdates => o.profile_updates,
        SocialKind::UpcomingEvent => o.upcoming_event,
        SocialKind::Reaction => true,
    }
}

/// A social notification other than a reaction is shown exactly where its own preference
/// is on, the sender is not blocked and the scope is not muted; with its preference off,
/// it is never allowed.
pub proof fn law_kinds_follow_their_toggle(s: State, item: SocialNotification)
    requires
        !(item.kind is Reaction),
        s.notification_settings@.overview is Some,
    ensures
        s.spec_allowed(item) <==> (kind_toggle(s.notification_settings@.overview->0, item.kind)
            && !(item.other_user matches Some(u) && s.spec_user_blocked(u) == Some(true))
            && s.spec_scope_allowed(item.channel, item.guild)),
{
}

/// With reactions set to "Never", a reaction that arrives never joins the queue, and a
/// take never hands out a reaction.
pub proof fn law_never_reactions_are_never_queued(s: State, item: SocialNotification, capacity: usize)
    requires
        item.kind is Reaction,
        s.notification_settings@.overview matches Some(o) && o.reactions == 2,
    ensures
        s.received(item, capacity).social == s.notification_settings@.social,
        s.taken().0 matches Some(n) ==> !(n.kind is Reaction),
{
    law_reactions_follow_their_preference(s, item);
    law_take_returns_allowed(s, s.notification_settings@.social);
    if let Some(k) = first_allowed(s, s.notification_settings@.social) {
        let n = s.notification_settings@.social[k as int];
        if n.kind is Reaction {
            law_reactions_follow_their_preference(s, n);
        }
    }
}

/// The overview preference that a single-preference change sets, with its value: true
/// and false as 1 and 0, the reaction setting as itself.
pub open spec fn overview_value(o: Overview, c: Change) -> int {
    match c {
        Change::Streaming(_) => bool_nat(o.streaming) as int,
        Change::FriendAnniversary(_) => bool_nat(o.friend_anniversary) as int,
        Change::FriendsOnline(_) => bool_nat(o.friends_online) as int,
        Change::UpcomingEvent(_) => bool_nat(o.upcoming_event) as int,
        Change::ProfileUpdates(_) => bool_nat(o.profile_updates) as int,
        _ => o.reactions as int,
    }
}

/// The value that an overview change sets.
pub open spec fn change_value(c: Change) -> int {
    match c {
        Change::Streaming(b) => bool_nat(b) as int,
        Change::FriendAnniversary(b) => bool_nat(b) as int,
        Change::FriendsOnline(b) => bool_nat(b) as int,
        Change::UpcomingEvent(b) => bool_nat(b) as int,
        Change::ProfileUpdates(b) => bool_nat(b) as int,
        Change::Reactions(n) => n as int,
        _ => 0,
    }
}

/// Whether two overview changes are for the same preference.
pub open spec fn same_preference(a: Change, b: Change) -> bool {
    match (a, b) {
        (Change::Streaming(_), Change::Streaming(_)) => true,
        (Change::FriendAnniversary(_), Change::FriendAnniversary(_)) => true,
        (Change::FriendsOnline(_), Change::FriendsOnline(_)) => true,
        (Change::UpcomingEvent(_), Change::UpcomingEvent(_)) => true,
        (Change::ProfileUpdates(_), Change::ProfileUpdates(_)) => true,
        (Change::Reactions(_), Change::Reactions(_)) => true,
        _ => false,
    }
}

/// An overview change sets its own preference to its value and leaves every other
/// overview preference, and every email preference, as it is.
pub proof fn law_overview_change_sets_its_preference(c: Change, o: Overview, other: Change, e: Email)
    requires
        c.spec_section() is Overview,
        other.spec_section() is Overview,
    ensures
        overview_value(c.overview_after(o), c) == change_value(c),
        !same_preference(c, other) ==> overview_value(c.overview_after(o), other)
            == overview_value(o, other),
        c.email_after(e) == e,
{
}

/// The value of email category `k` in the preferences `e`.
pub open spec fn email_category(e: Email, k: EmailCategory) -> bool {
    match k {
        EmailCategory::Communication => e.communication,
        EmailCategory::Social => e.social,
        EmailCategory::UpdatesAndAnnouncements => e.announcements,
        EmailCategory::Tips => e.tips,
        EmailCategory::RecommendationsAndEvents => e.recommendations,
    }
}

/// The one email category that a single-category change sets, and the value it sets.
pub open spec fn email_setting(c: Change) -> Option<(EmailCategory, bool)> {
    match c {
        Change::Communication(b) => Some((EmailCategory::Communication, b)),
        Change::Social(b) => Some((EmailCategory::Social, b)),
        Change::Announcements(b) => Some((EmailCategory::UpdatesAndAnnouncements, b)),
        Change::Tips(b) => Some((EmailCategory::Tips, b)),
        Change::Recommendations(b) => Some((EmailCategory::RecommendationsAndEvents, b)),
        _ => None,
    }
}

pub open spec fn setting_category(c: Change) -> EmailCategory {
    match email_setting(c) {
        Some((k, _)) => k,
        None => EmailCategory::Communication,
    }
}

pub open spec fn setting_value(c: Change) -> bool {
    match email_setting(c) {
        Some((_, b)) => b,
        None => false,
    }
}

/// A single-category email change sets its category to its value and leaves every other
/// category as it is; its patch writes exactly that category with that value.
pub proof fn law_email_change_sets_its_category(c: Change, e: Email, k: EmailCategory)
    requires
        email_setting(c) is Some,
    ensures
        email_category(c.email_after(e), k) == (if k == setting_category(c) {
            setting_value(c)
        } else {
            email_category(e, k)
        }),
        spec_email_patch(c) == Some(seq![(setting_category(c), setting_value(c))]),
{
}

/// Social emails: `Social(b)` turns social emails on exactly where `b`, changes no other
/// category, and writes the category keyed `social` with `b`.
pub proof fn law_social_email(b: bool, e: Email)
    ensures
        Change::Social(b).email_after(e).social == b,
        Change::Social(b).email_after(e) == (Email { social: b, ..e }),
        spec_email_patch(Change::Social(b)) == Some(seq![(EmailCategory::Social, b)]),
        EmailCategory::Social.spec_key() == "social",
{
}

/// The overview preferences when the notification subtree holds only `field`, as read by
/// `spec_overview`: each preference at its default but the one that `field` holds.
pub open spec fn overview_with(field: nat, b: bool, streaming: bool) -> Overview {
    let d = Overview { streaming, ..Overview::spec_default() };
    if field == 12 {
        Overview { friends_online: b, ..d }
    } else if field == 14 {
        Overview { friend_anniversary: b, ..d }
    } else if field == 16 {
        Overview { profile_updates: b, ..d }
    } else {
        Overview { upcoming_event: b, ..d }
    }
}

/// Which wire field holds which overview preference: a notification subtree that holds
/// only a boolean wrapper with `b` in field 12 reads as "friends come online" set to `b`, 14
/// as friendship anniversaries, 16 as profile updates and 22 as upcoming events; every other
/// preference keeps its default. A change of one of these preferences is written to its
/// field.
pub proof fn law_overview_fields(field: nat, b: bool, streaming: bool)
    requires
        field == 12 || field == 14 || field == 16 || field == 22,
    ensures
        spec_overview(integer_wrapper_bytes(field, bool_nat(b)), streaming) == Some(
            overview_with(field, b, streaming),
        ),
        patch_target(Change::FriendsOnline(b)) == Some((12nat, bool_nat(b))),
        patch_target(Change::FriendAnniversary(b)) == Some((14nat, bool_nat(b))),
        patch_target(Change::ProfileUpdates(b)) == Some((16nat, bool_nat(b))),
        patch_target(Change::UpcomingEvent(b)) == Some((22nat, bool_nat(b))),
{
    let v = bool_nat(b);
    let payload = seq![8u8] + encode_varint(v);
    assert(encode_varint(v) == seq![v as u8]);
    lemma_message_fields(field, payload);
    lemma_wrapper_bool(v);
    let w = integer_wrapper_bytes(field, v);
    let fs = spec_fields(w)->0;
    let f = fs[0];
    assert(fs =~= seq![f]);
    assert(fs.drop_last() =~= Seq::<FieldSpec>::empty());
    assert(fs.last() == f);
    assert(payload_of(w, f) == payload);
    assert(spec_bool_wrapper(payload) == Some(b));
    assert(count_number(Seq::<FieldSpec>::empty(), 7) == 0);
    assert(first_number(Seq::<FieldSpec>::empty(), 7) is None);
    assert(count_number(Seq::<FieldSpec>::empty(), field) == 0);
    assert(first_number(Seq::<FieldSpec>::empty(), field) is None);
    assert(spec_u32_field(fs, 7) == Some(0nat));
    assert(spec_flag(w, fs, field, true) == Some(b));
    assert(count_number(Seq::<FieldSpec>::empty(), 12) == 0);
    assert(count_number(Seq::<FieldSpec>::empty(), 14) == 0);
    assert(count_number(Seq::<FieldSpec>::empty(), 16) == 0);
    assert(count_number(Seq::<FieldSpec>::empty(), 22) == 0);
    assert(first_number(Seq::<FieldSpec>::empty(), 12) is None);
    assert(first_number(Seq::<FieldSpec>::empty(), 14) is None);
    assert(first_number(Seq::<FieldSpec>::empty(), 16) is None);
    assert(first_number(Seq::<FieldSpec>::empty(), 22) is None);
}

/// The reaction preference is the varint in field 7 of the notification subtree, and the
/// streaming preference the boolean wrapper in field 7 of the voice subtree: a subtree
/// holding only the one or the other reads as that value, every other preference at its
/// default.
pub proof fn law_reactions_and_streaming_fields(v: u32, b: bool, streaming: bool)
    requires
        v <= 2,
    ensures
        spec_overview(seq![56u8, v as u8], streaming) == Some(
            Overview { streaming, reactions: v, ..Overview::spec_default() },
        ),
        spec_streaming(integer_wrapper_bytes(7, bool_nat(b))) == Some(b),
        patch_target(Change::Reactions(v)) == Some((7nat, v as nat)),
        patch_target(Change::Streaming(b)) == Some((7nat, bool_nat(b))),
{
    lemma_reactions_field(v as nat);
    let fs = spec_fields(seq![56u8, v as u8])->0;
    let f = fs[0];
    assert(fs.drop_last() =~= Seq::<FieldSpec>::empty());
    assert(fs.last() == f);
    assert(count_number(Seq::<FieldSpec>::empty(), 7) == 0);
    assert(first_number(Seq::<FieldSpec>::empty(), 7) is None);
    assert(count_number(Seq::<FieldSpec>::empty(), 12) == 0);
    assert(count_number(Seq::<FieldSpec>::empty(), 14) == 0);
    assert(count_number(Seq::<FieldSpec>::empty(), 16) == 0);
    assert(count_number(Seq::<FieldSpec>::empty(), 22) == 0);
    assert(first_number(Seq::<FieldSpec>::empty(), 12) is None);
    assert(first_number(Seq::<FieldSpec>::empty(), 14) is None);
    assert(first_number(Seq::<FieldSpec>::empty(), 16) is None);
    assert(first_number(Seq::<FieldSpec>::empty(), 22) is None);
    assert(spec_u32_field(fs, 7) == Some(v as nat));
    let x = bool_nat(b);
    let payload = seq![8u8] + encode_varint(x);
    assert(encode_varint(x) == seq![x as u8]);
    lemma_message_fields(7, payload);
    lemma_wrapper_bool(x);
    let w = integer_wrapper_bytes(7, x);
    let gs = spec_fields(w)->0;
    let g = gs[0];
    assert(gs.drop_last() =~= Seq::<FieldSpec>::empty());
    assert(gs.last() == g);
    assert(payload_of(w, g) == payload);
}

/// Which notification-center items are read as which kind: an item that is not
/// acknowledged or completed, of type `go_live_push`, `scheduled_guild_event_started` or
/// `reaction_sent` and with an acceptable body, is shown as a streaming, a server event or a
/// reaction notification; and a reaction is then gated by the reaction preference, not by
/// the event toggle.
pub proof fn law_notification_kinds(len: nat, item: NotificationItem, s: State, n: SocialNotification)
    requires
        !spec_item_refused(len, Some(item)),
        !item.acked,
        !item.completed,
        item.kind@ == "go_live_push"@ || item.kind@ == "scheduled_guild_event_started"@
            || item.kind@ == "reaction_sent"@,
        Some(n.kind) == spec_social_kind(item.kind@),
        s.notification_settings@.overview is Some,
    ensures
        spec_item_shown(item),
        item.kind@ == "go_live_push"@ ==> n.kind is Streaming,
        item.kind@ == "scheduled_guild_event_started"@ ==> n.kind is UpcomingEvent,
        item.kind@ == "reaction_sent"@ ==> n.kind is Reaction,
        item.kind@ == "reaction_sent"@ && s.notification_settings@.overview->0.reactions == 2
            ==> !s.spec_allowed(n),
{
    reveal_strlit("go_live_push");
    reveal_strlit("scheduled_guild_event_started");
    reveal_strlit("reaction_sent");
    if item.kind@ == "reaction_sent"@ {
        assert(item.kind@ != "go_live_push"@) by {
            assert(item.kind@[0] != "go_live_push"@[0]);
        }
        assert(item.kind@ != "scheduled_guild_event_started"@) by {
            assert(item.kind@[0] != "scheduled_guild_event_started"@[0]);
        }
        law_reactions_follow_their_preference(s, n);
    }
    if item.kind@ == "scheduled_guild_event_started"@ {
        assert(item.kind@ != "go_live_push"@) by {
            assert(item.kind@[0] != "go_live_push"@[0]);
        }
    }
}

/// Member lookups run only in the selected channel: for any other channel, or with no
/// channel selected, `search_members` starts nothing and changes nothing. Nor do they run
/// while the gateway is disconnected, in a channel outside a guild or one that cannot be
/// viewed, or for a slot other than the first.
pub proof fn law_search_only_in_selected_channel(s: State, channel: crate::model::Id, slot: usize)
    ensures
        s.selected != Some(channel) ==> !s.search_allowed(channel, slot),
        !s.gateway_connected ==> !s.search_allowed(channel, slot),
        slot != 0 ==> !s.search_allowed(channel, slot),
        s.spec_channel(channel) matches Some(c) && (c.guild is None || !c.viewable) ==> !s.search_allowed(channel, slot),
        s.spec_channel(channel) is None ==> !s.search_allowed(channel, slot),
{
}

/// In the selected channel, a lookup starts where the channel belongs to a guild, can be
/// viewed, the gateway is connected and the first slot is asked for.
pub proof fn law_search_in_selected_guild_channel(s: State, channel: crate::model::Id)
    requires
        s.selected == Some(channel),
        s.gateway_connected,
        s.spec_channel(channel) matches Some(c) && c.guild is Some && c.viewable,
    ensures
        s.search_allowed(channel, 0),
{
}

} // verus!
