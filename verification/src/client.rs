//! Acknowledged account preferences, scoped by the session and by request identity.
use crate::auth::{AuthState, Failure};
use crate::member_search::{Channel, Request, View as SearchView};
use crate::model::{Change, Email, Id, Overview, Section, Snapshot, SocialNotification};
use std::collections::VecDeque;
use vstd::prelude::*;

verus! {

/// The most social notifications that wait to be shown.
pub const SOCIAL_QUEUE: usize = 16;

/// The most memory that waiting social notifications hold.
pub const SOCIAL_BYTES: usize = 20480;

/// How many notification ids are remembered to drop repeats.
pub const SEEN_IDS: usize = 128;

/// The longest notification body that is kept, in UTF-8 bytes.
pub const SOCIAL_BODY: usize = 1024;

/// The largest buffer that a kept notification body may hold.
pub const SOCIAL_CAPACITY: usize = 4096;

/// What the client asks the network layer to do.
pub enum Command {
    /// Read, or change and read back, one section of the account preferences.
    AccountNotificationSettings { request: u64, section: Section, change: Option<Change> },
    /// Look up guild members for the composer.
    MemberSearch(Request),
}

/// What `Settings` holds: the confirmed sections, the request in flight, the failures to
/// show, and the social notifications that wait to be shown.
pub struct SettingsModel {
    pub overview: Option<Overview>,
    pub email: Option<Email>,
    pub pending: Option<Section>,
    pub error: Option<Failure>,
    pub overview_error: Option<Failure>,
    pub email_error: Option<Failure>,
    pub request: u64,
    pub social: Seq<SocialNotification>,
    pub sizes: Seq<usize>,
    pub seen: Seq<Id>,
}

/// The account preferences that Discord confirmed, and what waits on them.
pub struct Settings {
    pub overview: Option<Overview>,
    pub email: Option<Email>,
    pub pending: Option<Section>,
    pub error: Option<Failure>,
    pub overview_error: Option<Failure>,
    pub email_error: Option<Failure>,
    request: u64,
    social: VecDeque<SocialNotification>,
    sizes: VecDeque<usize>,
    social_bytes: usize,
    seen: VecDeque<Id>,
}

/// Every state the client reaches keeps the social queue bounded: at most 16 waiting
/// notifications, counted together at no more than 20 KiB, and at most 128 remembered ids,
/// none twice. (`State::new` gives a well-formed state, and every operation keeps it so.)
pub proof fn law_social_queue_bounded(s: State)
    requires
        s.wf(),
    ensures
        s.notification_settings@.social.len() <= SOCIAL_QUEUE,
        s.notification_settings@.sizes.len() == s.notification_settings@.social.len(),
        total(s.notification_settings@.sizes) <= SOCIAL_BYTES,
        s.notification_settings@.seen.len() <= SEEN_IDS,
        distinct(s.notification_settings@.seen),
{
    s.notification_settings.lemma_bounds();
}

/// The sum of the sizes, first to last.
pub open spec fn total(s: Seq<usize>) -> int
    decreases s.len(),
{
    if s.len() == 0 {
        0
    } else {
        s[0] + total(s.drop_first())
    }
}

/// Whether `s` holds no id twice.
pub open spec fn distinct(s: Seq<Id>) -> bool {
    forall|i: int, j: int| 0 <= i < j < s.len() ==> s[i] != s[j]
}

impl View for Settings {
    type V = SettingsModel;

    closed spec fn view(&self) -> SettingsModel {
        SettingsModel {
            overview: self.overview,
            email: self.email,
            pending: self.pending,
            error: self.error,
            overview_error: self.overview_error,
            email_error: self.email_error,
            request: self.request,
            social: self.social@,
            sizes: self.sizes@,
            seen: self.seen@,
        }
    }
}

impl SettingsModel {
    /// The bounds that the social queue and the seen ids keep.
    pub open spec fn wf(self) -> bool {
        &&& self.social.len() == self.sizes.len()
        &&& self.social.len() <= SOCIAL_QUEUE
        &&& total(self.sizes) <= SOCIAL_BYTES
        &&& self.seen.len() <= SEEN_IDS
        &&& distinct(self.seen)
    }

    /// Nothing loaded, nothing pending, nothing queued.
    pub open spec fn empty() -> SettingsModel {
        SettingsModel {
            overview: None,
            email: None,
            pending: None,
            error: None,
            overview_error: None,
            email_error: None,
            request: 0,
            social: Seq::empty(),
            sizes: Seq::empty(),
            seen: Seq::empty(),
        }
    }

    /// The failure shown for `section`.
    pub open spec fn with_section_error(self, section: Section, f: Option<Failure>) -> SettingsModel {
        match section {
            Section::Overview => SettingsModel { overview_error: f, ..self },
            Section::Email => SettingsModel { email_error: f, ..self },
        }
    }
}

impl Settings {
    pub closed spec fn inv(&self) -> bool {
        &&& self@.wf()
        &&& self.social_bytes == total(self.sizes@)
    }

    pub fn new() -> (r: Settings)
        ensures
            r@ == SettingsModel::empty(),
            r.inv(),
    {
        Settings {
            overview: None,
            email: None,
            pending: None,
            error: None,
            overview_error: None,
            email_error: None,
            request: 0,
            social: VecDeque::new(),
            sizes: VecDeque::new(),
            social_bytes: 0,
            seen: VecDeque::new(),
        }
    }

    /// The confirmed overview preferences, once loaded.
    pub fn overview(&self) -> (r: Option<Overview>)
        ensures
            r == self@.overview,
    {
        self.overview
    }

    /// The confirmed email preferences, once loaded.
    pub fn email(&self) -> (r: Option<Email>)
        ensures
            r == self@.email,
    {
        self.email
    }

    /// The section whose request is in flight.
    pub fn pending(&self) -> (r: Option<Section>)
        ensures
            r == self@.pending,
    {
        self.pending
    }

    /// The failure of the last overview request.
    pub fn overview_error(&self) -> (r: Option<Failure>)
        ensures
            r == self@.overview_error,
    {
        self.overview_error
    }

    /// The failure of the last email request.
    pub fn email_error(&self) -> (r: Option<Failure>)
        ensures
            r == self@.email_error,
    {
        self.email_error
    }

    /// The bounds that the settings of every state keep: each operation of `State` keeps
    /// `inv`, and a new state has it.
    pub proof fn lemma_bounds(&self)
        requires
            self.inv(),
        ensures
            self@.wf(),
    {
    }

    /// The number of social notifications that wait to be shown.
    pub fn social_len(&self) -> (r: usize)
        ensures
            r == self@.social.len(),
    {
        self.social.len()
    }

    /// The number of notification ids remembered.
    pub fn seen_len(&self) -> (r: usize)
        ensures
            r == self@.seen.len(),
    {
        self.seen.len()
    }
}

impl Default for Settings {
    fn default() -> (r: Settings)
        ensures
            r@ == SettingsModel::empty(),
            r.inv(),
    {
        Settings::new()
    }
}

/// A user, as the client knows them.
pub struct User {
    pub id: Id,
    pub name: String,
}

/// A friend: who they are, their username, and whether they were last seen online.
pub struct Friend {
    pub user: User,
    pub username: String,
    pub online: Option<bool>,
}

/// Whether notifications for one guild (or, with no guild, for direct messages) are muted.
#[derive(Clone, Copy, Debug, PartialEq, Eq, Structural)]
pub struct Scope {
    pub guild: Option<Id>,
    pub muted: Option<bool>,
}

/// The client's session state.
pub struct State {
    pub auth: AuthState,
    pub gateway_connected: bool,
    pub demo: bool,
    pub notification_settings: Settings,
    pub selected: Option<Id>,
    pub channels: Vec<Channel>,
    pub member_search: SearchView,
    pub member_search_nonce: u64,
    /// Each related user and whether they are blocked.
    pub relationships: Vec<(Id, bool)>,
    pub friends: Vec<Friend>,
    /// Whether the user's status suppresses notifications, once known.
    pub suppressed: Option<bool>,
    pub scopes: Vec<Scope>,
}

impl State {
    /// Whether account writes can reach Discord.
    pub open spec fn online(self) -> bool {
        self.auth == AuthState::Authenticated && self.gateway_connected
    }

    /// The same state, but for its notification settings.
    pub open spec fn same_but_settings(self, other: State) -> bool {
        &&& self.auth == other.auth
        &&& self.gateway_connected == other.gateway_connected
        &&& self.demo == other.demo
        &&& self.selected == other.selected
        &&& self.channels@ == other.channels@
        &&& self.member_search == other.member_search
        &&& self.member_search_nonce == other.member_search_nonce
        &&& self.relationships@ == other.relationships@
        &&& self.friends@ == other.friends@
        &&& self.suppressed == other.suppressed
        &&& self.scopes@ == other.scopes@
    }

    /// The well-formedness that every operation keeps.
    pub open spec fn wf(self) -> bool {
        self.notification_settings.inv()
    }

    /// The state of a new, logged-out client.
    pub open spec fn is_initial(self) -> bool {
        &&& self.auth == AuthState::LoggedOut
        &&& !self.gateway_connected
        &&& !self.demo
        &&& self.notification_settings@ == SettingsModel::empty()
        &&& self.selected is None
        &&& self.channels@.len() == 0
        &&& self.member_search.is_empty()
        &&& self.member_search_nonce == 0
        &&& self.relationships@.len() == 0
        &&& self.friends@.len() == 0
        &&& self.suppressed is None
        &&& self.scopes@.len() == 0
    }

    pub fn new() -> (r: State)
        ensures
            r.is_initial(),
            r.wf(),
    {
        State {
            auth: AuthState::LoggedOut,
            gateway_connected: false,
            demo: false,
            notification_settings: Settings::new(),
            selected: None,
            channels: Vec::new(),
            member_search: SearchView::new(),
            member_search_nonce: 0,
            relationships: Vec::new(),
            friends: Vec::new(),
            suppressed: None,
            scopes: Vec::new(),
        }
    }
}

impl Default for State {
    fn default() -> (r: State)
        ensures
            r.is_initial(),
            r.wf(),
    {
        State::new()
    }
}

/// The settings after a request for `section` (with `change`, if any): nothing while a
/// request is in flight; a failure while offline; in the offline demo, the change applied
/// locally at once; otherwise a new request, which waits for its acknowledgement.
pub open spec fn command_after(
    m: SettingsModel,
    online: bool,
    demo: bool,
    section: Section,
    change: Option<Change>,
) -> SettingsModel {
    if m.pending is Some {
        m
    } else if !demo && !online {
        SettingsModel { error: Some(Failure::Offline), ..m }.with_section_error(
            section,
            Some(Failure::Offline),
        )
    } else {
        let m1 = SettingsModel { error: None, ..m }.with_section_error(section, None);
        if demo {
            match section {
                Section::Overview => {
                    let v = match m.overview {
                        Some(v) => v,
                        None => Overview::spec_default(),
                    };
                    SettingsModel {
                        overview: Some(
                            match change {
                                Some(c) => c.overview_after(v),
                                None => v,
                            },
                        ),
                        ..m1
                    }
                },
                Section::Email => {
                    let v = match m.email {
                        Some(v) => v,
                        None => Email::spec_default(),
                    };
                    SettingsModel {
                        email: Some(
                            match change {
                                Some(c) => c.email_after(v),
                                None => v,
                            },
                        ),
                        ..m1
                    }
                },
            }
        } else {
            SettingsModel {
                request: next_request(m.request),
                pending: Some(section),
                ..m1
            }
        }
    }
}

/// The identity of the next request.
pub open spec fn next_request(r: u64) -> u64 {
    if r == u64::MAX {
        0
    } else {
        (r + 1) as u64
    }
}

/// Whether such a request sends a command.
pub open spec fn command_sent(m: SettingsModel, online: bool, demo: bool) -> bool {
    m.pending is None && !demo && online
}

/// Whether an update is sent on: it is valid and its section is loaded.
pub open spec fn update_accepted(m: SettingsModel, change: Change) -> bool {
    &&& change.spec_valid()
    &&& match change.spec_section() {
        Section::Overview => m.overview is Some,
        Section::Email => m.email is Some,
    }
}

/// The settings after the acknowledgement `request` with `result`: ignored unless it answers
/// the request in flight; then the confirmed section is stored, or the failure shown.
pub open spec fn ack_after(m: SettingsModel, request: u64, result: Result<Snapshot, Failure>) -> SettingsModel {
    match m.pending {
        None => m,
        Some(section) => if request != m.request {
            m
        } else {
            let m1 = SettingsModel { pending: None, ..m }.with_section_error(
                section,
                match result {
                    Ok(_) => None,
                    Err(f) => Some(f),
                },
            );
            match result {
                Ok(Snapshot::Overview(v)) => if section == Section::Overview {
                    SettingsModel { overview: Some(v), ..m1 }
                } else {
                    SettingsModel { error: Some(Failure::WrongSection), ..m1 }.with_section_error(
                        section,
                        Some(Failure::WrongSection),
                    )
                },
                Ok(Snapshot::Email(v)) => if section == Section::Email {
                    SettingsModel { email: Some(v), ..m1 }
                } else {
                    SettingsModel { error: Some(Failure::WrongSection), ..m1 }.with_section_error(
                        section,
                        Some(Failure::WrongSection),
                    )
                },
                Err(f) => SettingsModel { error: Some(f), ..m1 },
            }
        },
    }
}

/// Whether the acknowledgement ends the session.
pub open spec fn ack_fails_session(m: SettingsModel, request: u64, result: Result<Snapshot, Failure>) -> bool {
    &&& m.pending is Some
    &&& request == m.request
    &&& result matches Err(f) && f.spec_ends_session() && f != Failure::Capacity
}

impl Settings {
    fn set_section_error(&mut self, section: Section, f: Option<Failure>)
        ensures
            final(self)@ == old(self)@.with_section_error(section, f),
            final(self).inv() == old(self).inv(),
    {
        match section {
            Section::Overview => self.overview_error = f,
            Section::Email => self.email_error = f,
        }
    }
}

impl State {
    pub fn request_notification_settings(&mut self, section: Section) -> (r: Option<Command>)
        requires
            old(self).wf(),
        ensures
            final(self).wf(),
            final(self).same_but_settings(*old(self)),
            final(self).notification_settings@ == command_after(
                old(self).notification_settings@,
                old(self).online(),
                old(self).demo,
                section,
                None,
            ),
            command_sent(old(self).notification_settings@, old(self).online(), old(self).demo)
                ==> r == Some(
                Command::AccountNotificationSettings {
                    request: final(self).notification_settings@.request,
                    section,
                    change: None,
                },
            ),
            !command_sent(old(self).notification_settings@, old(self).online(), old(self).demo)
                ==> r is None,
    {
        self.notification_settings_command(section, None)
    }

    pub fn update_notification_settings(&mut self, change: Change) -> (r: Option<Command>)
        requires
            old(self).wf(),
        ensures
            final(self).wf(),
            final(self).same_but_settings(*old(self)),
            !update_accepted(old(self).notification_settings@, change) ==> r is None
                && final(self).notification_settings@ == old(self).notification_settings@,
            update_accepted(old(self).notification_settings@, change) ==> {
                &&& final(self).notification_settings@ == command_after(
                    old(self).notification_settings@,
                    old(self).online(),
                    old(self).demo,
                    change.spec_section(),
                    Some(change),
                )
                &&& command_sent(old(self).notification_settings@, old(self).online(), old(self).demo)
                    ==> r == Some(
                    Command::AccountNotificationSettings {
                        request: final(self).notification_settings@.request,
                        section: change.spec_section(),
                        change: Some(change),
                    },
                )
                &&& !command_sent(
                    old(self).notification_settings@,
                    old(self).online(),
                    old(self).demo,
                ) ==> r is None
            },
    {
        if !change.valid() {
            return None;
        }
        let loaded = match change.section() {
            Section::Overview => self.notification_settings.overview.is_some(),
            Section::Email => self.notification_settings.email.is_some(),
        };
        if !loaded {
            return None;
        }
        self.notification_settings_command(change.section(), Some(change))
    }

    fn notification_settings_command(&mut self, section: Section, change: Option<Change>) -> (r:
        Option<Command>)
        requires
            old(self).wf(),
        ensures
            final(self).wf(),
            final(self).same_but_settings(*old(self)),
            final(self).notification_settings@ == command_after(
                old(self).notification_settings@,
                old(self).online(),
                old(self).demo,
                section,
                change,
            ),
            command_sent(old(self).notification_settings@, old(self).online(), old(self).demo)
                ==> r == Some(
                Command::AccountNotificationSettings {
                    request: final(self).notification_settings@.request,
                    section,
                    change,
                },
            ),
            !command_sent(old(self).notification_settings@, old(self).online(), old(self).demo)
                ==> r is None,
    {
        if self.notification_settings.pending.is_some() {
            return None;
        }
        let online = self.auth == AuthState::Authenticated && self.gateway_connected;
        if !self.demo && !online {
            let failure = Failure::Offline;
            self.notification_settings.error = Some(failure);
            self.notification_settings.set_section_error(section, Some(failure));
            return None;
        }
        self.notification_settings.error = None;
        self.notification_settings.set_section_error(section, None);
        if self.demo {
            match section {
                Section::Overview => {
                    let mut value = match self.notification_settings.overview {
                        Some(v) => v,
                        None => Overview::default(),
                    };
                    if let Some(change) = change {
                        change.apply_overview(&mut value);
                    }
                    self.notification_settings.overview = Some(value);
                },
                Section::Email => {
                    let mut value = match self.notification_settings.email {
                        Some(v) => v,
                        None => Email::default(),
                    };
                    if let Some(change) = change {
                        change.apply_email(&mut value);
                    }
                    self.notification_settings.email = Some(value);
                },
            }
            return None;
        }
        self.notification_settings.request = self.notification_settings.request.wrapping_add(1);
        self.notification_settings.pending = Some(section);
        Some(
            Command::AccountNotificationSettings {
                request: self.notification_settings.request,
                section,
                change,
            },
        )
    }
}

/// The settings after the request in flight was interrupted by `failure`: it is no longer
/// awaited, and waiting social notifications are dropped.
pub open spec fn interrupted(m: SettingsModel, failure: Failure) -> SettingsModel {
    let cleared = SettingsModel { social: Seq::empty(), sizes: Seq::empty(), ..m };
    match m.pending {
        Some(section) => SettingsModel { pending: None, ..cleared }.with_section_error(
            section,
            Some(failure),
        ),
        None => cleared,
    }
}

impl State {
    /// The state after the session ends: everything cleared but the demo flag, with `auth`.
    pub open spec fn is_reset(self, demo: bool, auth: AuthState) -> bool {
        &&& self.auth == auth
        &&& !self.gateway_connected
        &&& self.demo == demo
        &&& self.notification_settings@ == SettingsModel::empty()
        &&& self.selected is None
        &&& self.channels@.len() == 0
        &&& self.member_search.is_empty()
        &&& self.member_search_nonce == 0
        &&& self.relationships@.len() == 0
        &&& self.friends@.len() == 0
        &&& self.suppressed is None
        &&& self.scopes@.len() == 0
    }

    /// Ends the session and clears everything that belongs to it.
    pub fn logout(&mut self)
        ensures
            final(self).wf(),
            final(self).is_reset(old(self).demo, AuthState::LoggedOut),
    {
        self.auth = AuthState::LoggedOut;
        self.gateway_connected = false;
        self.notification_settings = Settings::new();
        self.selected = None;
        self.channels = Vec::new();
        self.member_search = SearchView::new();
        self.member_search_nonce = 0;
        self.relationships = Vec::new();
        self.friends = Vec::new();
        self.suppressed = None;
        self.scopes = Vec::new();
    }

    /// Ends the session because of `failure`.
    pub fn fail(&mut self, failure: Failure)
        ensures
            final(self).wf(),
            final(self).is_reset(old(self).demo, AuthState::Failed(failure)),
    {
        self.logout();
        self.auth = AuthState::Failed(failure);
    }

    /// Stores the answer to request `request`: ignored unless it answers the request in
    /// flight; a failure that ends the session ends it (a full queue does not).
    pub fn apply_account_notification_settings(
        &mut self,
        request: u64,
        result: Result<Snapshot, Failure>,
    )
        requires
            old(self).wf(),
        ensures
            final(self).wf(),
            !ack_fails_session(old(self).notification_settings@, request, result) ==> {
                &&& final(self).same_but_settings(*old(self))
                &&& final(self).notification_settings@ == ack_after(
                    old(self).notification_settings@,
                    request,
                    result,
                )
            },
            ack_fails_session(old(self).notification_settings@, request, result)
                ==> final(self).is_reset(old(self).demo, AuthState::Failed(result->Err_0)),
    {
        let section = match self.notification_settings.pending {
            Some(s) => s,
            None => return ,
        };
        if request != self.notification_settings.request {
            return ;
        }
        self.notification_settings.pending = None;
        let failure = match result {
            Ok(_) => None,
            Err(f) => Some(f),
        };
        self.notification_settings.set_section_error(section, failure);
        match result {
            Ok(Snapshot::Overview(v)) => {
                if section == Section::Overview {
                    self.notification_settings.overview = Some(v);
                } else {
                    self.wrong_section(section);
                }
            },
            Ok(Snapshot::Email(v)) => {
                if section == Section::Email {
                    self.notification_settings.email = Some(v);
                } else {
                    self.wrong_section(section);
                }
            },
            Err(failure) => {
                self.notification_settings.error = Some(failure);
                if failure.ends_session() && failure != Failure::Capacity {
                    self.fail(failure);
                }
            },
        }
    }

    fn wrong_section(&mut self, section: Section)
        requires
            old(self).wf(),
        ensures
            final(self).wf(),
            final(self).same_but_settings(*old(self)),
            final(self).notification_settings@ == (SettingsModel {
                error: Some(Failure::WrongSection),
                ..old(self).notification_settings@
            }).with_section_error(section, Some(Failure::WrongSection)),
    {
        let failure = Failure::WrongSection;
        self.notification_settings.error = Some(failure);
        self.notification_settings.set_section_error(section, Some(failure));
    }

    /// The request in flight (if any) was interrupted by `failure`: it is no longer awaited,
    /// and waiting social notifications are dropped.
    pub fn interrupt_notification_settings(&mut self, failure: Failure)
        requires
            old(self).wf(),
        ensures
            final(self).wf(),
            final(self).same_but_settings(*old(self)),
            final(self).notification_settings@ == interrupted(
                old(self).notification_settings@,
                failure,
            ),
    {
        if let Some(section) = self.notification_settings.pending {
            self.notification_settings.pending = None;
            self.notification_settings.set_section_error(section, Some(failure));
        }
        self.notification_settings.social = VecDeque::new();
        self.notification_settings.sizes = VecDeque::new();
        self.notification_settings.social_bytes = 0;
    }
}

/// Whether `rels` marks the user blocked, for the first entry that names them.
pub open spec fn lookup_blocked(rels: Seq<(Id, bool)>, id: Id) -> Option<bool>
    decreases rels.len(),
{
    if rels.len() == 0 {
        None
    } else if rels[0].0 == id {
        Some(rels[0].1)
    } else {
        lookup_blocked(rels.drop_first(), id)
    }
}

/// Whether `scopes` mutes `guild`, by the last entry that names it.
pub open spec fn scope_muted(scopes: Seq<Scope>, guild: Option<Id>) -> Option<bool>
    decreases scopes.len(),
{
    if scopes.len() == 0 {
        None
    } else if scopes.last().guild == guild {
        scopes.last().muted
    } else {
        scope_muted(scopes.drop_last(), guild)
    }
}

/// Whether the preference for a kind of social notification lets it through.
pub open spec fn kind_enabled(o: Overview, item: SocialNotification) -> bool {
    match item.kind {
        crate::model::SocialKind::Streaming => o.streaming,
        crate::model::SocialKind::FriendsOnline => o.friends_online,
        crate::model::SocialKind::ProfileUpdates => o.profile_updates,
        crate::model::SocialKind::UpcomingEvent => o.upcoming_event,
        crate::model::SocialKind::Reaction => o.reactions == 0 || (o.reactions == 1
            && item.guild is None),
    }
}

/// The number of waiting notifications that make room for one of `b` bytes: the oldest go
/// until fewer than 16 wait and all fit in 20 KiB.
pub open spec fn evictions(sizes: Seq<usize>, b: int) -> nat
    decreases sizes.len(),
{
    if sizes.len() == 0 {
        0
    } else if sizes.len() >= SOCIAL_QUEUE || total(sizes) + b > SOCIAL_BYTES {
        1 + evictions(sizes.drop_first(), b)
    } else {
        0
    }
}

/// The queue after `item`, of `b` bytes, joins it.
pub open spec fn enqueued(m: SettingsModel, item: SocialNotification, b: usize) -> SettingsModel {
    let k = evictions(m.sizes, b as int) as int;
    SettingsModel { social: m.social.skip(k).push(item), sizes: m.sizes.skip(k).push(b), ..m }
}

/// The ids remembered after `id`: the oldest is forgotten once 128 are remembered.
pub open spec fn seen_after(seen: Seq<Id>, id: Id) -> Seq<Id> {
    if seen.len() >= SEEN_IDS {
        seen.drop_first().push(id)
    } else {
        seen.push(id)
    }
}

/// The index of the first waiting notification that is allowed.
pub open spec fn first_allowed(s: State, q: Seq<SocialNotification>) -> Option<nat>
    decreases q.len(),
{
    if q.len() == 0 {
        None
    } else if s.spec_allowed(q[0]) {
        Some(0)
    } else {
        match first_allowed(s, q.drop_first()) {
            Some(k) => Some(k + 1),
            None => None,
        }
    }
}

proof fn lemma_total_nonneg(s: Seq<usize>)
    ensures
        total(s) >= 0,
        s.len() > 0 ==> total(s) >= s[0],
    decreases s.len(),
{
    if s.len() > 0 {
        lemma_total_nonneg(s.drop_first());
    }
}

proof fn lemma_total_push(s: Seq<usize>, x: usize)
    ensures
        total(s.push(x)) == total(s) + x,
    decreases s.len(),
{
    assert(s.push(x)[0] == if s.len() > 0 {
        s[0]
    } else {
        x
    });
    if s.len() > 0 {
        lemma_total_push(s.drop_first(), x);
        assert(s.push(x).drop_first() =~= s.drop_first().push(x));
    } else {
        assert(s.push(x).drop_first() =~= Seq::<usize>::empty());
        assert(total(Seq::<usize>::empty()) == 0);
    }
}

proof fn lemma_total_drop(s: Seq<usize>)
    requires
        s.len() > 0,
    ensures
        total(s.drop_first()) <= total(s),
{
    lemma_total_nonneg(s);
}

impl State {
    pub open spec fn spec_user_blocked(self, id: Id) -> Option<bool> {
        lookup_blocked(self.relationships@, id)
    }

    /// Notifications are shown while the user's status allows them and the guild (or, with
    /// no guild, direct messages) is known not to be muted.
    pub open spec fn spec_scope_allowed(self, channel: Option<Id>, guild: Option<Id>) -> bool {
        self.suppressed == Some(false) && scope_muted(self.scopes@, guild) == Some(false)
    }

    /// Whether a social notification may be shown now: its preference is loaded and on, it
    /// does not come from a blocked user, and its scope is not muted.
    pub open spec fn spec_allowed(self, item: SocialNotification) -> bool {
        match self.notification_settings@.overview {
            None => false,
            Some(o) => {
                &&& !(item.other_user matches Some(u) && self.spec_user_blocked(u) == Some(true))
                &&& kind_enabled(o, item)
                &&& self.spec_scope_allowed(item.channel, item.guild)
            },
        }
    }

    /// The settings after `item` (of `b` bytes) is offered to the queue in settings `m`: an
    /// allowed item that fits the byte budget joins it; any other is dropped.
    pub open spec fn offered(self, m: SettingsModel, item: SocialNotification, b: usize) -> SettingsModel {
        if self.spec_allowed(item) && b <= SOCIAL_BYTES {
            enqueued(m, item, b)
        } else {
            m
        }
    }

    /// Whether the user is blocked: `None` where the client knows no relationship.
    pub fn user_blocked(&self, id: Id) -> (r: Option<bool>)
        ensures
            r == self.spec_user_blocked(id),
    {
        let mut i: usize = 0;
        proof {
            assert(self.relationships@.skip(0) =~= self.relationships@);
        }
        while i < self.relationships.len()
            invariant
                i <= self.relationships@.len(),
                lookup_blocked(self.relationships@, id) == lookup_blocked(
                    self.relationships@.skip(i as int),
                    id,
                ),
            decreases self.relationships.len() - i,
        {
            proof {
                assert(self.relationships@.skip(i as int).drop_first() =~= self.relationships@.skip(
                    i + 1,
                ));
            }
            let (user, blocked) = self.relationships[i];
            if user.0 == id.0 {
                return Some(blocked);
            }
            i = i + 1;
        }
        None
    }

    pub fn social_notification_scope_allowed(&self, channel: Option<Id>, guild: Option<Id>) -> (r:
        bool)
        ensures
            r == self.spec_scope_allowed(channel, guild),
    {
        match self.suppressed {
            Some(false) => {},
            _ => return false,
        }
        let mut i = self.scopes.len();
        proof {
            assert(self.scopes@.take(i as int) =~= self.scopes@);
        }
        while i > 0
            invariant
                i <= self.scopes@.len(),
                self.suppressed == Some(false),
                scope_muted(self.scopes@, guild) == scope_muted(self.scopes@.take(i as int), guild),
            decreases i,
        {
            proof {
                assert(self.scopes@.take(i as int).drop_last() =~= self.scopes@.take(i - 1));
                assert(self.scopes@.take(i as int).last() == self.scopes@[i - 1]);
            }
            let scope = self.scopes[i - 1];
            if same_guild(scope.guild, guild) {
                proof {
                    assert(scope == self.scopes@[i - 1]);
                    assert(scope_muted(self.scopes@.take(i as int), guild) == scope.muted);
                }
                return match scope.muted {
                    Some(m) => !m,
                    None => false,
                };
            }
            i = i - 1;
        }
        false
    }

    fn social_notification_allowed(&self, item: &SocialNotification) -> (r: bool)
        ensures
            r == self.spec_allowed(*item),
    {
        let settings = match self.notification_settings.overview {
            Some(o) => o,
            None => return false,
        };
        if let Some(id) = item.other_user {
            if self.user_blocked(id) == Some(true) {
                return false;
            }
        }
        let enabled = match item.kind {
            crate::model::SocialKind::Streaming => settings.streaming,
            crate::model::SocialKind::FriendsOnline => settings.friends_online,
            crate::model::SocialKind::ProfileUpdates => settings.profile_updates,
            crate::model::SocialKind::UpcomingEvent => settings.upcoming_event,
            crate::model::SocialKind::Reaction => settings.reactions == 0 || (settings.reactions
                == 1 && item.guild.is_none()),
        };
        enabled && self.social_notification_scope_allowed(item.channel, item.guild)
    }

    /// Offers `item`, of `b` bytes, to the queue: where it is allowed and fits the byte
    /// budget, the oldest waiting notifications make room for it.
    fn enqueue_social_notification(&mut self, item: SocialNotification, b: usize)
        requires
            old(self).wf(),
        ensures
            final(self).wf(),
            final(self).same_but_settings(*old(self)),
            final(self).notification_settings@ == old(self).offered(
                old(self).notification_settings@,
                item,
                b,
            ),
    {
        if !self.social_notification_allowed(&item) || b > SOCIAL_BYTES {
            return ;
        }
        let ghost m = self.notification_settings@;
        let ghost k0 = evictions(m.sizes, b as int);
        let mut j: usize = 0;
        proof {
            assert(m.sizes.skip(0) =~= m.sizes);
            assert(m.social.skip(0) =~= m.social);
        }
        while self.notification_settings.social.len() > 0 && (self.notification_settings.social.len()
            >= SOCIAL_QUEUE || self.notification_settings.social_bytes > SOCIAL_BYTES - b)
            invariant
                self.wf(),
                self.same_but_settings(*old(self)),
                self.notification_settings@ == (SettingsModel {
                    social: m.social.skip(j as int),
                    sizes: m.sizes.skip(j as int),
                    ..m
                }),
                j <= m.sizes.len(),
                m.social.len() == m.sizes.len(),
                m.sizes.len() <= SOCIAL_QUEUE,
                k0 == j + evictions(m.sizes.skip(j as int), b as int),
                m == old(self).notification_settings@,
                b <= SOCIAL_BYTES,
            decreases self.notification_settings.social.len(),
        {
            let ghost before = self.notification_settings.sizes@;
            proof {
                lemma_total_nonneg(before);
                lemma_total_drop(before);
                assert(m.sizes.skip(j as int).drop_first() =~= m.sizes.skip(j + 1));
                assert(m.social.skip(j as int).drop_first() =~= m.social.skip(j + 1));
            }
            self.notification_settings.social.pop_front();
            let front = self.notification_settings.sizes.pop_front();
            match front {
                Some(x) => {
                    self.notification_settings.social_bytes = self.notification_settings.social_bytes
                        - x;
                },
                None => {},
            }
            j = j + 1;
        }
        proof {
            if self.notification_settings.social@.len() == 0 {
                assert(m.sizes.skip(j as int).len() == 0);
            }
            lemma_total_push(self.notification_settings.sizes@, b);
        }
        self.notification_settings.social.push_back(item);
        self.notification_settings.sizes.push_back(b);
        self.notification_settings.social_bytes = self.notification_settings.social_bytes + b;
    }
}

fn same_guild(a: Option<Id>, b: Option<Id>) -> (r: bool)
    ensures
        r == (a == b),
{
    match (a, b) {
        (Some(x), Some(y)) => x.0 == y.0,
        (None, None) => true,
        _ => false,
    }
}

/// Whether a notification with this body and buffer is refused outright.
pub open spec fn body_refused(item: SocialNotification, capacity: usize) -> bool {
    crate::model::encode_utf8_len(item.body@) > SOCIAL_BODY || capacity > SOCIAL_CAPACITY
}

/// The memory that a notification whose body buffer holds `capacity` bytes is counted at.
pub open spec fn notification_bytes(capacity: usize) -> int {
    crate::model::notification_overhead() + capacity
}

impl State {
    /// What a take hands out, and the settings after it: the first waiting notification that
    /// is still allowed, with the ones before it dropped; with none allowed, the queue empties.
    pub open spec fn taken(self) -> (Option<SocialNotification>, SettingsModel) {
        let m = self.notification_settings@;
        match first_allowed(self, m.social) {
            Some(k) => (
                Some(m.social[k as int]),
                SettingsModel { social: m.social.skip(k + 1int), sizes: m.sizes.skip(k + 1int), ..m },
            ),
            None => (None, SettingsModel { social: Seq::empty(), sizes: Seq::empty(), ..m }),
        }
    }

    /// The settings after `item` arrives, with a body buffer of `capacity` bytes: a refused or
    /// repeated one is dropped; otherwise its id is remembered and it is offered to the queue.
    pub open spec fn received(self, item: SocialNotification, capacity: usize) -> SettingsModel {
        let m = self.notification_settings@;
        if body_refused(item, capacity) || m.seen.contains(item.id) {
            m
        } else {
            self.offered(
                SettingsModel { seen: seen_after(m.seen, item.id), ..m },
                item,
                notification_bytes(capacity) as usize,
            )
        }
    }

    fn seen_contains(&self, id: Id) -> (r: bool)
        ensures
            r == self.notification_settings@.seen.contains(id),
    {
        let seen = &self.notification_settings.seen;
        let mut i: usize = 0;
        while i < seen.len()
            invariant
                i <= seen@.len(),
                seen@ == self.notification_settings@.seen,
                forall|k: int| 0 <= k < i ==> seen@[k] != id,
            decreases seen.len() - i,
        {
            if seen[i].0 == id.0 {
                return true;
            }
            i = i + 1;
        }
        false
    }

    /// A notification-center item arrives. Where its buffer measures `capacity` bytes, the
    /// settings become `received(item, capacity)`.
    pub fn receive_social_notification_measured(&mut self, item: SocialNotification, capacity: usize)
        requires
            old(self).wf(),
            crate::model::encode_utf8_len(item.body@) <= capacity <= isize::MAX,
        ensures
            final(self).wf(),
            final(self).same_but_settings(*old(self)),
            final(self).notification_settings@ == old(self).received(item, capacity),
    {
        if crate::text::string_len(&item.body) > SOCIAL_BODY || capacity > SOCIAL_CAPACITY
            || self.seen_contains(item.id) {
            return ;
        }
        let ghost m = self.notification_settings@;
        if self.notification_settings.seen.len() >= SEEN_IDS {
            self.notification_settings.seen.pop_front();
        }
        self.notification_settings.seen.push_back(item.id);
        proof {
            let s = self.notification_settings@.seen;
            assert(s == seen_after(m.seen, item.id));
            assert forall|i: int, j: int| 0 <= i < j < s.len() implies s[i] != s[j] by {
                if j == s.len() - 1 {
                    if m.seen.len() >= SEEN_IDS {
                        assert(s[i] == m.seen[i + 1]);
                    } else {
                        assert(s[i] == m.seen[i]);
                    }
                } else if m.seen.len() >= SEEN_IDS {
                    assert(s[i] == m.seen[i + 1]);
                    assert(s[j] == m.seen[j + 1]);
                }
            }
        }
        vstd::layout::layout_for_type_is_valid::<SocialNotification>();
        let b = core::mem::size_of::<SocialNotification>() + capacity;
        self.enqueue_social_notification(item, b);
    }

    /// A notification-center item arrives: it is dropped where its body is too long, its
    /// buffer too large, or its id already seen; otherwise its id is remembered and it is
    /// offered to the queue.
    pub fn receive_social_notification(&mut self, item: SocialNotification)
        requires
            old(self).wf(),
        ensures
            final(self).wf(),
            final(self).same_but_settings(*old(self)),
            exists|capacity: usize|
                crate::model::encode_utf8_len(item.body@) <= capacity <= isize::MAX
                    && final(self).notification_settings@ == old(self).received(item, capacity),
    {
        let capacity = crate::model::string_capacity(&item.body);
        self.receive_social_notification_measured(item, capacity);
    }

    /// The first waiting notification that is still allowed; the ones before it, which the
    /// preferences no longer allow, are dropped.
    pub fn take_social_notification(&mut self) -> (r: Option<SocialNotification>)
        requires
            old(self).wf(),
        ensures
            final(self).wf(),
            final(self).same_but_settings(*old(self)),
            r == old(self).taken().0,
            final(self).notification_settings@ == old(self).taken().1,
            match first_allowed(*old(self), old(self).notification_settings@.social) {
                Some(k) => {
                    &&& r == Some(old(self).notification_settings@.social[k as int])
                    &&& final(self).notification_settings@ == (SettingsModel {
                        social: old(self).notification_settings@.social.skip(k + 1int),
                        sizes: old(self).notification_settings@.sizes.skip(k + 1int),
                        ..old(self).notification_settings@
                    })
                },
                None => {
                    &&& r is None
                    &&& final(self).notification_settings@ == (SettingsModel {
                        social: Seq::empty(),
                        sizes: Seq::empty(),
                        ..old(self).notification_settings@
                    })
                },
            },
    {
        let ghost s0 = *self;
        let ghost m = self.notification_settings@;
        let mut j: usize = 0;
        proof {
            assert(m.sizes.skip(0) =~= m.sizes);
            assert(m.social.skip(0) =~= m.social);
        }
        while self.notification_settings.social.len() > 0
            invariant
                self.wf(),
                self.same_but_settings(s0),
                s0 == *old(self),
                m == s0.notification_settings@,
                self.notification_settings@ == (SettingsModel {
                    social: m.social.skip(j as int),
                    sizes: m.sizes.skip(j as int),
                    ..m
                }),
                j <= m.social.len(),
                m.social.len() == m.sizes.len(),
                m.sizes.len() <= SOCIAL_QUEUE,
                first_allowed(s0, m.social) == match first_allowed(s0, m.social.skip(j as int)) {
                    Some(k) => Some((k + j) as nat),
                    None => None::<nat>,
                },
            decreases self.notification_settings.social.len(),
        {
            let ghost before = self.notification_settings.sizes@;
            proof {
                lemma_total_nonneg(before);
                lemma_total_drop(before);
                assert(m.sizes.skip(j as int).drop_first() =~= m.sizes.skip(j + 1));
                assert(m.social.skip(j as int).drop_first() =~= m.social.skip(j + 1));
                lemma_allowed_same(s0, *self, m.social[j as int]);
            }
            let item = self.notification_settings.social.pop_front().unwrap();
            let front = self.notification_settings.sizes.pop_front();
            match front {
                Some(x) => {
                    self.notification_settings.social_bytes = self.notification_settings.social_bytes
                        - x;
                },
                None => {},
            }
            j = j + 1;
            if self.social_notification_allowed(&item) {
                return Some(item);
            }
        }
        proof {
            assert(m.social.skip(j as int).len() == 0);
            assert(self.notification_settings@.social =~= Seq::<SocialNotification>::empty());
            assert(self.notification_settings@.sizes =~= Seq::<usize>::empty());
        }
        None
    }
}

/// Whether a notification is allowed depends on the settings only through the overview.
proof fn lemma_allowed_same(a: State, b: State, item: SocialNotification)
    requires
        a.same_but_settings(b),
        a.notification_settings@.overview == b.notification_settings@.overview,
    ensures
        a.spec_allowed(item) == b.spec_allowed(item),
{
}

/// A change of the notification preferences that scope social notifications.
pub enum PreferenceEvent {
    /// Whether the user's status now suppresses notifications.
    Presence(Option<bool>),
    /// Per-guild mutes: all of them, or more of them.
    Settings { entries: Vec<Scope>, replace: bool },
}

/// A change of what the client knows about other users.
pub enum UserEvent {
    /// Every relationship, with whether the user is blocked.
    Relationships(Option<Vec<(Id, bool)>>),
    /// Every friend, with their username: a snapshot, which notifies nothing.
    Friends(Option<Vec<(User, String)>>),
    /// One friend's profile, with their username.
    FriendProfile((User, String)),
}

/// One user's new status.
pub struct PresenceUpdate {
    pub user: Id,
    pub status: Option<String>,
}

/// The friends after one status update: the friend it names, if any, is online unless the
/// status is `offline`; an update without a status changes nothing.
pub open spec fn presence_step(friends: Seq<Friend>, u: PresenceUpdate) -> Seq<Friend> {
    match u.status {
        None => friends,
        Some(status) => match find_friend(friends, u.user) {
            None => friends,
            Some(k) => friends.update(k, Friend { online: Some(status@ != "offline"@), ..friends[k] }),
        },
    }
}

/// The friends after each update in turn.
pub open spec fn presence_friends(friends: Seq<Friend>, updates: Seq<PresenceUpdate>) -> Seq<
    Friend,
>
    decreases updates.len(),
{
    if updates.len() == 0 {
        friends
    } else {
        presence_step(presence_friends(friends, updates.drop_last()), updates.last())
    }
}

/// The settings after friend `user`'s change, in the state `s` but with friends `friends`
/// and settings `m`: where the change is notified, some such notification, of some size,
/// is offered to the queue; otherwise nothing changes.
pub open spec fn friend_change_from(
    s: State,
    friends: Seq<Friend>,
    m: SettingsModel,
    after: SettingsModel,
    user: Id,
    kind: crate::model::SocialKind,
) -> bool {
    if find_friend(friends, user) is Some && s.spec_user_blocked(user) == Some(false) {
        exists|n: SocialNotification, b: usize|
            friend_notification(n, user, kind) && crate::model::notification_overhead()
                + crate::model::encode_utf8_len(n.body@) <= b && #[trigger] s.offered(m, n, b)
                == after
    } else {
        after == m
    }
}

/// The settings after one status update, with friends `friends` and settings `m` before it:
/// a friend seen offline who comes online is notified; nothing else changes them.
pub open spec fn presence_settings_step(
    s: State,
    friends: Seq<Friend>,
    m: SettingsModel,
    u: PresenceUpdate,
    after: SettingsModel,
) -> bool {
    match u.status {
        None => after == m,
        Some(status) => match find_friend(friends, u.user) {
            None => after == m,
            Some(k) => if friends[k].online == Some(false) && status@ != "offline"@ {
                friend_change_from(
                    s,
                    friends,
                    m,
                    after,
                    u.user,
                    crate::model::SocialKind::FriendsOnline,
                )
            } else {
                after == m
            },
        },
    }
}

/// `ms` are the settings before each update of `updates`, from the state `s`, and after the
/// last one it covers: each follows from the one before as `presence_settings_step` says.
pub open spec fn presence_trace(s: State, updates: Seq<PresenceUpdate>, ms: Seq<SettingsModel>) -> bool {
    &&& 1 <= ms.len() <= updates.len() + 1
    &&& ms[0] == s.notification_settings@
    &&& forall|i: int|
        0 <= i < ms.len() - 1 ==> #[trigger] presence_settings_step(
            s,
            presence_friends(s.friends@, updates.take(i)),
            ms[i],
            updates[i],
            ms[i + 1],
        )
}

/// The index of the first friend with id `id`.
pub open spec fn find_friend(friends: Seq<Friend>, id: Id) -> Option<int>
    decreases friends.len(),
{
    if friends.len() == 0 {
        None
    } else if friends.last().user.id == id {
        match find_friend(friends.drop_last(), id) {
            Some(k) => Some(k),
            None => Some(friends.len() - 1),
        }
    } else {
        find_friend(friends.drop_last(), id)
    }
}

/// A notification about a change of friend `user`.
pub open spec fn friend_notification(n: SocialNotification, user: Id, kind: crate::model::SocialKind) -> bool {
    &&& n.id == user
    &&& n.kind == kind
    &&& n.body@ == kind.spec_title()@
    &&& n.channel is None
    &&& n.guild is None
    &&& n.other_user == Some(user)
}

impl State {
    /// Whether changes of `user` are notified: they are a friend, known not to be blocked.
    pub open spec fn friend_change_notified(self, user: Id) -> bool {
        find_friend(self.friends@, user) is Some && self.spec_user_blocked(user) == Some(false)
    }

    /// The settings after a change of friend `user` in the state `self`: where it is notified,
    /// some such notification, of some size, is offered to the queue.
    pub open spec fn friend_changed(
        self,
        after: SettingsModel,
        user: Id,
        kind: crate::model::SocialKind,
    ) -> bool {
        if self.friend_change_notified(user) {
            exists|n: SocialNotification, b: usize|
                friend_notification(n, user, kind) && crate::model::notification_overhead()
                    + crate::model::encode_utf8_len(n.body@) <= b && #[trigger] self.offered(
                    self.notification_settings@,
                    n,
                    b,
                ) == after
        } else {
            after == self.notification_settings@
        }
    }

    fn find_friend(&self, id: Id) -> (r: Option<usize>)
        ensures
            match find_friend(self.friends@, id) {
                Some(k) => r matches Some(x) && x as int == k,
                None => r is None,
            },
    {
        let mut i: usize = 0;
        while i < self.friends.len()
            invariant
                i <= self.friends@.len(),
                find_friend(self.friends@.take(i as int), id) is None,
            decreases self.friends.len() - i,
        {
            proof {
                assert(self.friends@.take(i + 1).drop_last() =~= self.friends@.take(i as int));
            }
            if self.friends[i].user.id.0 == id.0 {
                proof {
                    lemma_find_friend_prefix(self.friends@, i + 1, id);
                }
                return Some(i);
            }
            i = i + 1;
        }
        proof {
            assert(self.friends@.take(self.friends@.len() as int) =~= self.friends@);
        }
        None
    }

    /// Notifies a change of friend `user`, where they are a friend and not blocked.
    pub fn notify_friend_change(&mut self, user: Id, kind: crate::model::SocialKind)
        requires
            old(self).wf(),
        ensures
            final(self).wf(),
            final(self).same_but_settings(*old(self)),
            old(self).friend_changed(final(self).notification_settings@, user, kind),
    {
        if self.find_friend(user).is_none() {
            return ;
        }
        match self.user_blocked(user) {
            Some(false) => {},
            _ => return ,
        }
        let item = SocialNotification {
            id: user,
            kind,
            body: <String as vstd::string::StringExecFns>::from_str(kind.title()),
            channel: None,
            guild: None,
            other_user: Some(user),
        };
        let b = item.bytes();
        let ghost n = item;
        let ghost s0 = *self;
        self.enqueue_social_notification(item, b);
        proof {
            assert(friend_notification(n, user, kind));
            assert(s0.offered(s0.notification_settings@, n, b) == self.notification_settings@);
        }
    }

    /// Notifies a change of friend `user`, where they are a friend and not blocked, counting
    /// the notification's text buffer at `capacity` bytes: the notification is offered to
    /// the queue at that size.
    pub fn notify_friend_change_measured(
        &mut self,
        user: Id,
        kind: crate::model::SocialKind,
        capacity: usize,
    )
        requires
            old(self).wf(),
            crate::model::encode_utf8_len(kind.spec_title()@) <= capacity <= isize::MAX,
        ensures
            final(self).wf(),
            final(self).same_but_settings(*old(self)),
            old(self).friend_change_notified(user) ==> exists|n: SocialNotification|
                friend_notification(n, user, kind) && #[trigger] old(self).offered(
                    old(self).notification_settings@,
                    n,
                    notification_bytes(capacity) as usize,
                ) == final(self).notification_settings@,
            !old(self).friend_change_notified(user) ==> final(self).notification_settings@
                == old(self).notification_settings@,
    {
        if self.find_friend(user).is_none() {
            return ;
        }
        match self.user_blocked(user) {
            Some(false) => {},
            _ => return ,
        }
        let item = SocialNotification {
            id: user,
            kind,
            body: <String as vstd::string::StringExecFns>::from_str(kind.title()),
            channel: None,
            guild: None,
            other_user: Some(user),
        };
        vstd::layout::layout_for_type_is_valid::<SocialNotification>();
        let b = core::mem::size_of::<SocialNotification>() + capacity;
        let ghost n = item;
        let ghost s0 = *self;
        self.enqueue_social_notification(item, b);
        proof {
            assert(b as int == notification_bytes(capacity));
            assert(notification_bytes(capacity) as usize == b);
            assert(friend_notification(n, user, kind));
            assert(s0.offered(s0.notification_settings@, n, b) == self.notification_settings@);
        }
    }

    /// Applies a change of the notification preferences that scope social notifications.
    pub fn apply_notification_preferences(&mut self, event: PreferenceEvent)
        requires
            old(self).wf(),
        ensures
            final(self).wf(),
            final(self).auth == old(self).auth,
            final(self).gateway_connected == old(self).gateway_connected,
            final(self).demo == old(self).demo,
            final(self).selected == old(self).selected,
            final(self).channels@ == old(self).channels@,
            final(self).member_search == old(self).member_search,
            final(self).member_search_nonce == old(self).member_search_nonce,
            final(self).notification_settings == old(self).notification_settings,
            final(self).relationships@ == old(self).relationships@,
            final(self).friends@ == old(self).friends@,
            match event {
                PreferenceEvent::Presence(p) => final(self).suppressed == p && final(self).scopes@
                    == old(self).scopes@,
                PreferenceEvent::Settings { entries, replace } => {
                    &&& final(self).suppressed == old(self).suppressed
                    &&& final(self).scopes@ == if replace {
                        entries@
                    } else {
                        old(self).scopes@ + entries@
                    }
                },
            },
    {
        match event {
            PreferenceEvent::Presence(p) => self.suppressed = p,
            PreferenceEvent::Settings { entries, replace } => {
                if replace {
                    self.scopes = entries;
                } else {
                    let mut i: usize = 0;
                    let ghost start = self.scopes@;
                    while i < entries.len()
                        invariant
                            i <= entries@.len(),
                            self.scopes@ == start + entries@.take(i as int),
                            start == old(self).scopes@,
                            self.notification_settings == old(self).notification_settings,
                            self.relationships@ == old(self).relationships@,
                            self.friends@ == old(self).friends@,
                            self.suppressed == old(self).suppressed,
                            self.auth == old(self).auth,
                            self.gateway_connected == old(self).gateway_connected,
                            self.demo == old(self).demo,
                            self.selected == old(self).selected,
                            self.channels@ == old(self).channels@,
                            self.member_search == old(self).member_search,
                            self.member_search_nonce == old(self).member_search_nonce,
                            old(self).wf(),
                        decreases entries.len() - i,
                    {
                        self.scopes.push(entries[i]);
                        proof {
                            assert(entries@.take(i + 1) =~= entries@.take(i as int).push(entries@[i as int]));
                        }
                        i = i + 1;
                    }
                    proof {
                        assert(entries@.take(entries@.len() as int) =~= entries@);
                    }
                }
            },
        }
    }
}

proof fn lemma_find_friend_prefix(friends: Seq<Friend>, i: int, id: Id)
    requires
        0 < i <= friends.len(),
        friends[i - 1].user.id == id,
        find_friend(friends.take(i - 1), id) is None,
    ensures
        find_friend(friends, id) == Some(i - 1),
    decreases friends.len(),
{
    if i < friends.len() {
        assert(friends.drop_last().take(i - 1) =~= friends.take(i - 1));
        lemma_find_friend_prefix(friends.drop_last(), i, id);
    } else {
        assert(friends.drop_last() =~= friends.take(i - 1));
    }
}

proof fn lemma_find_friend_some(friends: Seq<Friend>, id: Id)
    ensures
        (find_friend(friends, id) is Some) == (exists|k: int|
            0 <= k < friends.len() && (#[trigger] friends[k]).user.id == id),
        find_friend(friends, id) matches Some(k) ==> 0 <= k < friends.len() && friends[k].user.id
            == id,
    decreases friends.len(),
{
    if friends.len() > 0 {
        lemma_find_friend_some(friends.drop_last(), id);
        if exists|k: int| 0 <= k < friends.len() && (#[trigger] friends[k]).user.id == id {
            let k = choose|k: int| 0 <= k < friends.len() && (#[trigger] friends[k]).user.id == id;
            if k < friends.len() - 1 {
                assert(friends.drop_last()[k] == friends[k]);
            }
        }
        if let Some(k) = find_friend(friends.drop_last(), id) {
            assert(friends.drop_last()[k] == friends[k]);
        }
    }
}

proof fn lemma_friend_changed_from(
    s: State,
    a: State,
    after: SettingsModel,
    user: Id,
    kind: crate::model::SocialKind,
)
    requires
        a.friend_changed(after, user, kind),
        a.notification_settings@.overview == s.notification_settings@.overview,
        a.relationships@ == s.relationships@,
        a.suppressed == s.suppressed,
        a.scopes@ == s.scopes@,
    ensures
        friend_change_from(s, a.friends@, a.notification_settings@, after, user, kind),
        after.overview == a.notification_settings@.overview,
{
    if a.friend_change_notified(user) {
        let (n, x) = choose|n: SocialNotification, x: usize|
            friend_notification(n, user, kind) && crate::model::notification_overhead()
                + crate::model::encode_utf8_len(n.body@) <= x && #[trigger] a.offered(
                a.notification_settings@,
                n,
                x,
            ) == after;
        assert(a.spec_allowed(n) == s.spec_allowed(n));
        assert(s.offered(a.notification_settings@, n, x) == after);
    }
}

proof fn lemma_friend_changed_same(
    a: State,
    b: State,
    after: SettingsModel,
    user: Id,
    kind: crate::model::SocialKind,
)
    requires
        a.notification_settings@ == b.notification_settings@,
        a.relationships@ == b.relationships@,
        a.suppressed == b.suppressed,
        a.scopes@ == b.scopes@,
        (find_friend(a.friends@, user) is Some) == (find_friend(b.friends@, user) is Some),
    ensures
        a.friend_changed(after, user, kind) == b.friend_changed(after, user, kind),
{
    assert(a.friend_change_notified(user) == b.friend_change_notified(user));
    if a.friend_change_notified(user) {
        if a.friend_changed(after, user, kind) {
            let (n, x) = choose|n: SocialNotification, x: usize|
                friend_notification(n, user, kind) && crate::model::notification_overhead()
                    + crate::model::encode_utf8_len(n.body@) <= x && #[trigger] a.offered(
                    a.notification_settings@,
                    n,
                    x,
                ) == after;
            assert(a.spec_allowed(n) == b.spec_allowed(n));
            assert(b.offered(b.notification_settings@, n, x) == after);
        }
        if b.friend_changed(after, user, kind) {
            let (n, x) = choose|n: SocialNotification, x: usize|
                friend_notification(n, user, kind) && crate::model::notification_overhead()
                    + crate::model::encode_utf8_len(n.body@) <= x && #[trigger] b.offered(
                    b.notification_settings@,
                    n,
                    x,
                ) == after;
            assert(a.spec_allowed(n) == b.spec_allowed(n));
            assert(a.offered(a.notification_settings@, n, x) == after);
        }
    }
}

impl State {
    /// Whether a friend's new profile differs from what the client knows.
    pub open spec fn profile_changed(self, k: int, user: User, username: String) -> bool {
        self.friends@[k].user.name@ != user.name@ || self.friends@[k].username@ != username@
    }

    /// Applies a change of what the client knows about other users. A friend whose profile
    /// changed is notified.
    pub fn apply_user_action(&mut self, event: UserEvent)
        requires
            old(self).wf(),
        ensures
            final(self).wf(),
            final(self).auth == old(self).auth,
            final(self).gateway_connected == old(self).gateway_connected,
            final(self).demo == old(self).demo,
            final(self).suppressed == old(self).suppressed,
            final(self).scopes@ == old(self).scopes@,
            final(self).selected == old(self).selected,
            final(self).channels@ == old(self).channels@,
            final(self).member_search == old(self).member_search,
            final(self).member_search_nonce == old(self).member_search_nonce,
            match event {
                UserEvent::Relationships(v) => {
                    &&& final(self).relationships@ == match v {
                        Some(x) => x@,
                        None => Seq::empty(),
                    }
                    &&& final(self).friends@ == old(self).friends@
                    &&& final(self).notification_settings == old(self).notification_settings
                },
                UserEvent::Friends(v) => {
                    let list = match v {
                        Some(x) => x@,
                        None => Seq::empty(),
                    };
                    &&& final(self).relationships@ == old(self).relationships@
                    &&& final(self).notification_settings == old(self).notification_settings
                    &&& final(self).friends@.len() == list.len()
                    &&& forall|k: int|
                        0 <= k < list.len() ==> (#[trigger] final(self).friends@[k]).user == list[k].0
                            && final(self).friends@[k].username == list[k].1
                            && final(self).friends@[k].online is None
                },
                UserEvent::FriendProfile((user, username)) => {
                    &&& final(self).relationships@ == old(self).relationships@
                    &&& match find_friend(old(self).friends@, user.id) {
                        None => final(self).friends@ == old(self).friends@
                            && final(self).notification_settings == old(
                            self,
                        ).notification_settings,
                        Some(k) => if old(self).profile_changed(k, user, username) {
                            &&& final(self).friends@ == old(self).friends@.update(
                                k,
                                Friend { user, username, online: old(self).friends@[k].online },
                            )
                            &&& old(self).friend_changed(
                                final(self).notification_settings@,
                                user.id,
                                crate::model::SocialKind::ProfileUpdates,
                            )
                        } else {
                            final(self).friends@ == old(self).friends@
                                && final(self).notification_settings == old(
                                self,
                            ).notification_settings
                        },
                    }
                },
            },
    {
        match event {
            UserEvent::Relationships(v) => {
                self.relationships = match v {
                    Some(x) => x,
                    None => Vec::new(),
                };
            },
            UserEvent::Friends(v) => {
                let mut list = match v {
                    Some(x) => x,
                    None => Vec::new(),
                };
                let ghost orig = list@;
                let mut out: Vec<Friend> = Vec::new();
                while list.len() > 0
                    invariant
                        out@.len() + list@.len() == orig.len(),
                        list@ == orig.skip(out@.len() as int),
                        forall|k: int|
                            0 <= k < out@.len() ==> (#[trigger] out@[k]).user == orig[k].0
                                && out@[k].username == orig[k].1 && out@[k].online is None,
                    decreases list.len(),
                {
                    let ghost n = out@.len();
                    let (user, username) = list.remove(0);
                    proof {
                        assert(orig.skip(n as int)[0] == orig[n as int]);
                        assert(list@ =~= orig.skip(n + 1int));
                    }
                    out.push(Friend { user, username, online: None });
                }
                self.friends = out;
            },
            UserEvent::FriendProfile((user, username)) => {
                let k = match self.find_friend(user.id) {
                    Some(k) => k,
                    None => return ,
                };
                proof {
                    lemma_find_friend_some(self.friends@, user.id);
                }
                let same = crate::text::str_eq(
                    self.friends[k].user.name.as_str(),
                    user.name.as_str(),
                ) && crate::text::str_eq(self.friends[k].username.as_str(), username.as_str());
                if same {
                    return ;
                }
                let id = user.id;
                let online = self.friends[k].online;
                let ghost s0 = *self;
                self.friends.set(k, Friend { user, username, online });
                let ghost s1 = *self;
                proof {
                    lemma_find_friend_some(s1.friends@, id);
                    assert(s1.friends@[k as int].user.id == id);
                }
                self.notify_friend_change(id, crate::model::SocialKind::ProfileUpdates);
                proof {
                    lemma_friend_changed_same(
                        s0,
                        s1,
                        self.notification_settings@,
                        id,
                        crate::model::SocialKind::ProfileUpdates,
                    );
                }
            },
        }
    }

    /// Applies friend `user`'s new status: a friend seen offline who comes online is notified;
    /// the first status seen of a friend is not.
    pub fn apply_presence(&mut self, user: Id, status: &str)
        requires
            old(self).wf(),
        ensures
            final(self).wf(),
            final(self).auth == old(self).auth,
            final(self).gateway_connected == old(self).gateway_connected,
            final(self).demo == old(self).demo,
            final(self).relationships@ == old(self).relationships@,
            final(self).suppressed == old(self).suppressed,
            final(self).scopes@ == old(self).scopes@,
            final(self).selected == old(self).selected,
            final(self).channels@ == old(self).channels@,
            final(self).member_search == old(self).member_search,
            final(self).member_search_nonce == old(self).member_search_nonce,
            match find_friend(old(self).friends@, user) {
                None => final(self).friends@ == old(self).friends@
                    && final(self).notification_settings == old(self).notification_settings,
                Some(k) => {
                    let f = old(self).friends@[k];
                    let online = status@ != "offline"@;
                    &&& final(self).friends@ == old(self).friends@.update(
                        k,
                        Friend { online: Some(online), ..f },
                    )
                    &&& if f.online == Some(false) && online {
                        old(self).friend_changed(
                            final(self).notification_settings@,
                            user,
                            crate::model::SocialKind::FriendsOnline,
                        )
                    } else {
                        final(self).notification_settings == old(self).notification_settings
                    }
                },
            },
    {
        let k = match self.find_friend(user) {
            Some(k) => k,
            None => return ,
        };
        proof {
            lemma_find_friend_some(self.friends@, user);
            assert(find_friend(self.friends@, user) == Some(k as int));
            assert(self.friends@[k as int].user.id == user);
        }
        let online = !crate::text::str_eq(status, "offline");
        let prev = self.friends[k].online;
        let ghost f = self.friends@[k as int];
        let updated = Friend {
            user: User { id: self.friends[k].user.id, name: self.friends[k].user.name.clone() },
            username: self.friends[k].username.clone(),
            online: Some(online),
        };
        proof {
            assert(updated.user == f.user);
            assert(updated == (Friend { online: Some(online), ..f }));
        }
        let ghost s0 = *self;
        self.friends.set(k, updated);
        let ghost s1 = *self;
        proof {
            lemma_find_friend_some(s1.friends@, user);
            assert(s1.friends@[k as int].user.id == user);
        }
        let came_online = match prev {
            Some(false) => online,
            _ => false,
        };
        if came_online {
            self.notify_friend_change(user, crate::model::SocialKind::FriendsOnline);
            proof {
                lemma_friend_changed_same(
                    s0,
                    s1,
                    self.notification_settings@,
                    user,
                    crate::model::SocialKind::FriendsOnline,
                );
            }
        }
    }

    /// Applies each status update in turn, as `apply_presence` does; updates without a
    /// status are skipped.
    pub fn apply_direct_presence(&mut self, updates: &[PresenceUpdate])
        requires
            old(self).wf(),
        ensures
            final(self).wf(),
            final(self).auth == old(self).auth,
            final(self).gateway_connected == old(self).gateway_connected,
            final(self).demo == old(self).demo,
            final(self).relationships@ == old(self).relationships@,
            final(self).suppressed == old(self).suppressed,
            final(self).scopes@ == old(self).scopes@,
            final(self).selected == old(self).selected,
            final(self).channels@ == old(self).channels@,
            final(self).member_search == old(self).member_search,
            final(self).member_search_nonce == old(self).member_search_nonce,
            final(self).friends@ == presence_friends(old(self).friends@, updates@),
            exists|ms: Seq<SettingsModel>|
                presence_trace(*old(self), updates@, ms) && ms.len() == updates@.len() + 1
                    && ms.last() == final(self).notification_settings@,
    {
        let mut i: usize = 0;
        proof {
            let ms0 = seq![self.notification_settings@];
            assert(presence_trace(*old(self), updates@, ms0));
        }
        while i < updates.len()
            invariant
                i <= updates@.len(),
                self.wf(),
                self.auth == old(self).auth,
                self.gateway_connected == old(self).gateway_connected,
                self.demo == old(self).demo,
                self.relationships@ == old(self).relationships@,
                self.suppressed == old(self).suppressed,
                self.scopes@ == old(self).scopes@,
                self.selected == old(self).selected,
                self.channels@ == old(self).channels@,
                self.member_search == old(self).member_search,
                self.member_search_nonce == old(self).member_search_nonce,
                self.notification_settings@.overview == old(self).notification_settings@.overview,
                self.friends@ == presence_friends(old(self).friends@, updates@.take(i as int)),
                exists|ms: Seq<SettingsModel>|
                    presence_trace(*old(self), updates@, ms) && ms.len() == i + 1 && ms.last()
                        == self.notification_settings@,
            decreases updates.len() - i,
        {
            let ghost ms = choose|ms: Seq<SettingsModel>|
                presence_trace(*old(self), updates@, ms) && ms.len() == i + 1 && ms.last()
                    == self.notification_settings@;
            let ghost before = *self;
            proof {
                lemma_find_friend_some(self.friends@, updates@[i as int].user);
                assert(updates@.take(i as int + 1).drop_last() =~= updates@.take(i as int));
            }
            match &updates[i].status {
                Some(status) => self.apply_presence(updates[i].user, status.as_str()),
                None => {},
            }
            proof {
                let u = updates@[i as int];
                let ms2 = ms.push(self.notification_settings@);
                if u.status is Some {
                    if let Some(k) = find_friend(before.friends@, u.user) {
                        let f = before.friends@[k];
                        if f.online == Some(false) && u.status->0@ != "offline"@ {
                            lemma_friend_changed_from(
                                *old(self),
                                before,
                                self.notification_settings@,
                                u.user,
                                crate::model::SocialKind::FriendsOnline,
                            );
                        }
                    }
                }
                assert(presence_settings_step(
                    *old(self),
                    presence_friends(old(self).friends@, updates@.take(i as int)),
                    ms2[i as int],
                    updates@[i as int],
                    ms2[i + 1],
                ));
                assert forall|j: int| 0 <= j < ms2.len() - 1 implies #[trigger] presence_settings_step(
                    *old(self),
                    presence_friends(old(self).friends@, updates@.take(j)),
                    ms2[j],
                    updates@[j],
                    ms2[j + 1],
                ) by {
                    if j < i {
                        assert(ms2[j] == ms[j] && ms2[j + 1] == ms[j + 1]);
                    }
                }
                assert(presence_trace(*old(self), updates@, ms2));
                assert(ms2.last() == self.notification_settings@);
            }
            i = i + 1;
        }
        proof {
            assert(updates@.take(updates@.len() as int) =~= updates@);
        }
    }

    /// A command could not be queued: it is answered with a capacity failure.
    pub fn command_rejected(&mut self, command: Command)
        requires
            old(self).wf(),
        ensures
            final(self).wf(),
            match command {
                Command::AccountNotificationSettings { request, .. } => {
                    &&& final(self).same_but_settings(*old(self))
                    &&& final(self).notification_settings@ == ack_after(
                        old(self).notification_settings@,
                        request,
                        Err(Failure::Capacity),
                    )
                },
                Command::MemberSearch(request) => old(self).search_answered(
                    *final(self),
                    request,
                    Err(Failure::Capacity),
                ),
            },
    {
        match command {
            Command::AccountNotificationSettings { request, .. } => {
                self.apply_account_notification_settings(request, Err(Failure::Capacity));
            },
            Command::MemberSearch(request) => {
                self.searched_members(request, Err(Failure::Capacity));
            },
        }
    }
}

} // verus!
