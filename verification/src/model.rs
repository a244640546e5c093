//! Account notification preferences; device sounds and badges are stored separately.
use vstd::prelude::*;

verus! {

/// A Discord snowflake.
#[derive(Clone, Copy, Debug, PartialEq, Eq, Structural)]
pub struct Id(pub u64);

/// The two account preference sections that Discord stores separately.
#[derive(Clone, Copy, Debug, PartialEq, Eq, Structural)]
pub enum Section {
    Overview,
    Email,
}

/// The "notify me when..." preferences of the account.
#[derive(Clone, Copy, Debug, PartialEq, Eq, Structural)]
pub struct Overview {
    pub streaming: bool,
    pub friend_anniversary: bool,
    pub friends_online: bool,
    pub upcoming_event: bool,
    pub profile_updates: bool,
    /// Discord's enum is retained verbatim so future values are not overwritten.
    pub reactions: u32,
}

impl Overview {
    /// Discord's defaults: every social notification on, reactions for all messages.
    pub open spec fn spec_default() -> Overview {
        Overview {
            streaming: true,
            friend_anniversary: true,
            friends_online: true,
            upcoming_event: true,
            profile_updates: true,
            reactions: 0,
        }
    }
}

impl Default for Overview {
    fn default() -> (r: Self)
        ensures
            r == Overview::spec_default(),
    {
        Overview {
            streaming: true,
            friend_anniversary: true,
            friends_online: true,
            upcoming_event: true,
            profile_updates: true,
            reactions: 0,
        }
    }
}

/// The email categories of the account.
#[derive(Clone, Copy, Debug, PartialEq, Eq, Structural)]
pub struct Email {
    pub communication: bool,
    pub social: bool,
    pub announcements: bool,
    pub tips: bool,
    pub recommendations: bool,
}

impl Email {
    /// Every category off: what an absent category means.
    pub open spec fn spec_default() -> Email {
        Email {
            communication: false,
            social: false,
            announcements: false,
            tips: false,
            recommendations: false,
        }
    }
}

impl Default for Email {
    fn default() -> (r: Self)
        ensures
            r == Email::spec_default(),
    {
        Email {
            communication: false,
            social: false,
            announcements: false,
            tips: false,
            recommendations: false,
        }
    }
}

/// One edit of one account preference.
#[derive(Clone, Copy, Debug, PartialEq, Eq, Structural)]
pub enum Change {
    Streaming(bool),
    FriendAnniversary(bool),
    FriendsOnline(bool),
    UpcomingEvent(bool),
    ProfileUpdates(bool),
    Reactions(u32),
    Communication(bool),
    Social(bool),
    Announcements(bool),
    Tips(bool),
    Recommendations(bool),
    UnsubscribeMarketing,
}

impl Change {
    /// The section whose preferences this change edits.
    pub open spec fn spec_section(self) -> Section {
        match self {
            Change::Streaming(_)
            | Change::FriendAnniversary(_)
            | Change::FriendsOnline(_)
            | Change::UpcomingEvent(_)
            | Change::ProfileUpdates(_)
            | Change::Reactions(_) => Section::Overview,
            _ => Section::Email,
        }
    }

    /// Reaction levels above 2 are not ones that Discord defines.
    pub open spec fn spec_valid(self) -> bool {
        !(self matches Change::Reactions(v) && v > 2)
    }

    /// The overview preferences after this change; email changes leave them as they are.
    pub open spec fn overview_after(self, v: Overview) -> Overview {
        match self {
            Change::Streaming(b) => Overview { streaming: b, ..v },
            Change::FriendAnniversary(b) => Overview { friend_anniversary: b, ..v },
            Change::FriendsOnline(b) => Overview { friends_online: b, ..v },
            Change::UpcomingEvent(b) => Overview { upcoming_event: b, ..v },
            Change::ProfileUpdates(b) => Overview { profile_updates: b, ..v },
            Change::Reactions(n) => Overview { reactions: n, ..v },
            _ => v,
        }
    }

    /// The email preferences after this change; overview changes leave them as they are.
    pub open spec fn email_after(self, v: Email) -> Email {
        match self {
            Change::Communication(b) => Email { communication: b, ..v },
            Change::Social(b) => Email { social: b, ..v },
            Change::Announcements(b) => Email { announcements: b, ..v },
            Change::Tips(b) => Email { tips: b, ..v },
            Change::Recommendations(b) => Email { recommendations: b, ..v },
            Change::UnsubscribeMarketing => Email {
                announcements: false,
                tips: false,
                recommendations: false,
                ..v
            },
            _ => v,
        }
    }

    pub fn section(self) -> (r: Section)
        ensures
            r == self.spec_section(),
    {
        match self {
            Change::Streaming(_)
            | Change::FriendAnniversary(_)
            | Change::FriendsOnline(_)
            | Change::UpcomingEvent(_)
            | Change::ProfileUpdates(_)
            | Change::Reactions(_) => Section::Overview,
            _ => Section::Email,
        }
    }

    pub fn valid(self) -> (r: bool)
        ensures
            r == self.spec_valid(),
    {
        match self {
            Change::Reactions(v) => v <= 2,
            _ => true,
        }
    }

    pub fn apply_overview(self, v: &mut Overview)
        ensures
            *final(v) == self.overview_after(*old(v)),
    {
        match self {
            Change::Streaming(b) => v.streaming = b,
            Change::FriendAnniversary(b) => v.friend_anniversary = b,
            Change::FriendsOnline(b) => v.friends_online = b,
            Change::UpcomingEvent(b) => v.upcoming_event = b,
            Change::ProfileUpdates(b) => v.profile_updates = b,
            Change::Reactions(n) => v.reactions = n,
            _ => {},
        }
    }

    pub fn apply_email(self, v: &mut Email)
        ensures
            *final(v) == self.email_after(*old(v)),
    {
        match self {
            Change::Communication(b) => v.communication = b,
            Change::Social(b) => v.social = b,
            Change::Announcements(b) => v.announcements = b,
            Change::Tips(b) => v.tips = b,
            Change::Recommendations(b) => v.recommendations = b,
            Change::UnsubscribeMarketing => {
                v.announcements = false;
                v.tips = false;
                v.recommendations = false;
            },
            _ => {},
        }
    }
}

/// A confirmed copy of one section, as Discord returned it.
#[derive(Clone, Copy, Debug, PartialEq, Eq, Structural)]
pub enum Snapshot {
    Overview(Overview),
    Email(Email),
}

/// The kinds of social notification that the client shows.
#[derive(Clone, Copy, Debug, PartialEq, Eq, Structural)]
pub enum SocialKind {
    FriendsOnline,
    ProfileUpdates,
    Streaming,
    UpcomingEvent,
    Reaction,
}

impl SocialKind {
    pub open spec fn spec_title(self) -> &'static str {
        match self {
            SocialKind::Streaming => "A friend started streaming",
            SocialKind::FriendsOnline => "A friend came online",
            SocialKind::ProfileUpdates => "A friend updated their profile",
            SocialKind::UpcomingEvent => "Server event",
            SocialKind::Reaction => "New reaction",
        }
    }

    pub fn title(self) -> (r: &'static str)
        ensures
            r == self.spec_title(),
    {
        match self {
            SocialKind::Streaming => "A friend started streaming",
            SocialKind::FriendsOnline => "A friend came online",
            SocialKind::ProfileUpdates => "A friend updated their profile",
            SocialKind::UpcomingEvent => "Server event",
            SocialKind::Reaction => "New reaction",
        }
    }
}

/// One notification-center item, or one friend change, waiting to be shown.
#[derive(Clone, Debug)]
pub struct SocialNotification {
    pub id: Id,
    pub kind: SocialKind,
    pub body: String,
    pub channel: Option<Id>,
    pub guild: Option<Id>,
    pub other_user: Option<Id>,
}

/// `String::capacity`.
/// Claims that the capacity is at least the UTF-8 length of the text and at most
/// `isize::MAX`, since a `String` never allocates more than `isize::MAX` bytes.
/// What the allocator gave beyond that is left unsaid.
#[verifier::external_body]
pub(crate) fn string_capacity(s: &String) -> (c: usize)
    ensures
        encode_utf8_len(s@) <= c <= isize::MAX,
{
    s.capacity()
}

/// The number of bytes of the UTF-8 encoding of `s`.
pub open spec fn encode_utf8_len(s: Seq<char>) -> nat {
    vstd::utf8::encode_utf8(s).len()
}

/// The fixed, in-place size of a notification.
pub open spec fn notification_overhead() -> nat {
    vstd::layout::size_of::<SocialNotification>()
}

impl SocialNotification {
    /// The memory that this notification holds: its own size and its text's buffer.
    pub fn bytes(&self) -> (r: usize)
        ensures
            notification_overhead() + encode_utf8_len(self.body@) <= r,
            r <= notification_overhead() + isize::MAX,
            notification_overhead() <= isize::MAX,
    {
        vstd::layout::layout_for_type_is_valid::<SocialNotification>();
        let fixed = core::mem::size_of::<SocialNotification>();
        let capacity = string_capacity(&self.body);
        fixed + capacity
    }
}

/// A change edits only its own section: an email change leaves the overview as it is, and
/// an overview change the email preferences.
pub proof fn law_change_stays_in_section(c: Change, o: Overview, e: Email)
    ensures
        c.spec_section() == Section::Email ==> c.overview_after(o) == o,
        c.spec_section() == Section::Overview ==> c.email_after(e) == e,
{
}

/// Applying a change again changes nothing more.
pub proof fn law_change_idempotent(c: Change, o: Overview, e: Email)
    ensures
        c.overview_after(c.overview_after(o)) == c.overview_after(o),
        c.email_after(c.email_after(e)) == c.email_after(e),
{
}

/// Unsubscribing from marketing turns off exactly the marketing categories.
pub proof fn law_unsubscribe_keeps_personal_email(e: Email)
    ensures
        Change::UnsubscribeMarketing.email_after(e).communication == e.communication,
        Change::UnsubscribeMarketing.email_after(e).social == e.social,
        !Change::UnsubscribeMarketing.email_after(e).announcements,
        !Change::UnsubscribeMarketing.email_after(e).tips,
        !Change::UnsubscribeMarketing.email_after(e).recommendations,
{
}

} // verus!
