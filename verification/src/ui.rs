//! The notification settings page: its sections, what it loads when it opens, and what
//! each section shows of the account preferences.
use crate::auth::Failure;
use crate::client::{command_after, command_sent, Command, SettingsModel, State};
use crate::model::Section;
use vstd::prelude::*;

verus! {

#[derive(Clone, Copy, Debug, PartialEq, Eq, Structural)]
pub enum Tab {
    Overview,
    Sounds,
    Badges,
    Email,
}

impl Tab {
    /// Every section, in page order.
    pub fn all() -> (r: [Tab; 4])
        ensures
            r@ == seq![Tab::Overview, Tab::Sounds, Tab::Badges, Tab::Email],
    {
        let r = [Tab::Overview, Tab::Sounds, Tab::Badges, Tab::Email];
        proof {
            assert(r@ =~= seq![Tab::Overview, Tab::Sounds, Tab::Badges, Tab::Email]);
        }
        r
    }

    pub open spec fn spec_label(self) -> &'static str {
        match self {
            Tab::Overview => "Overview",
            Tab::Sounds => "Sounds",
            Tab::Badges => "Badges",
            Tab::Email => "Email",
        }
    }

    /// The section's heading.
    pub fn label(self) -> (r: &'static str)
        ensures
            r == self.spec_label(),
    {
        match self {
            Tab::Overview => "Overview",
            Tab::Sounds => "Sounds",
            Tab::Badges => "Badges",
            Tab::Email => "Email",
        }
    }
}

impl Default for Tab {
    fn default() -> (r: Tab)
        ensures
            r == Tab::Overview,
    {
        Tab::Overview
    }
}

/// Where the page is: the section in view, a section to scroll to, the session it belongs
/// to, and which sections it has tried to load.
pub struct Navigation {
    pub active: Tab,
    pub jump: Option<Tab>,
    pub generation: u64,
    pub overview_attempted: bool,
    pub email_attempted: bool,
}

impl Navigation {
    pub open spec fn fresh(generation: u64) -> Navigation {
        Navigation {
            active: Tab::Overview,
            jump: None,
            generation,
            overview_attempted: false,
            email_attempted: false,
        }
    }

    /// A page for the session `generation` that has loaded nothing yet.
    pub fn new(generation: u64) -> (r: Navigation)
        ensures
            r == Navigation::fresh(generation),
    {
        Navigation {
            active: Tab::Overview,
            jump: None,
            generation,
            overview_attempted: false,
            email_attempted: false,
        }
    }

    pub open spec fn attempted(self, section: Section) -> bool {
        match section {
            Section::Overview => self.overview_attempted,
            Section::Email => self.email_attempted,
        }
    }

    /// Lets the page load `section` again.
    pub fn retry(&mut self, section: Section)
        ensures
            !final(self).attempted(section),
            final(self).attempted(other_section(section)) == old(self).attempted(
                other_section(section),
            ),
            final(self).active == old(self).active,
            final(self).jump == old(self).jump,
            final(self).generation == old(self).generation,
    {
        match section {
            Section::Overview => self.overview_attempted = false,
            Section::Email => self.email_attempted = false,
        }
    }

    /// Whether the page was asked to scroll to `tab`'s heading; the request is then done.
    pub fn take_jump(&mut self, tab: Tab) -> (r: bool)
        ensures
            r == (old(self).jump == Some(tab)),
            *final(self) == (if r {
                Navigation { jump: None, ..*old(self) }
            } else {
                *old(self)
            }),
    {
        let asked = match self.jump {
            Some(t) => t == tab,
            None => false,
        };
        if asked {
            self.jump = None;
        }
        asked
    }

    /// Opens the page for the session `generation`: a new session starts the page afresh;
    /// then each section that it has not tried to load is loaded, the overview first, while
    /// no request is in flight.
    pub fn sync(&mut self, generation: u64, state: &mut State) -> (r: Vec<Command>)
        requires
            old(state).wf(),
        ensures
            final(state).wf(),
            final(state).same_but_settings(*old(state)),
            ({
                let (n, m, c) = spec_sync(
                    *old(self),
                    generation,
                    old(state).notification_settings@,
                    old(state).online(),
                    old(state).demo,
                );
                &&& *final(self) == n
                &&& final(state).notification_settings@ == m
                &&& r@ == c
            }),
    {
        if self.generation != generation {
            *self = Navigation::new(generation);
        }
        let mut commands: Vec<Command> = Vec::new();
        if !self.overview_attempted && state.notification_settings.pending().is_none() {
            if let Some(command) = state.request_notification_settings(Section::Overview) {
                commands.push(command);
            }
            self.overview_attempted = true;
        }
        if !self.email_attempted && state.notification_settings.pending().is_none() {
            if let Some(command) = state.request_notification_settings(Section::Email) {
                commands.push(command);
            }
            self.email_attempted = true;
        }
        commands
    }
}

pub open spec fn other_section(section: Section) -> Section {
    match section {
        Section::Overview => Section::Email,
        Section::Email => Section::Overview,
    }
}

/// The page, the settings and the commands after the page is opened for the session
/// `generation`.
pub open spec fn spec_sync(
    n0: Navigation,
    generation: u64,
    m0: SettingsModel,
    online: bool,
    demo: bool,
) -> (Navigation, SettingsModel, Seq<Command>) {
    let n = page_for(n0, generation);
    let (m1, a1, c1) = load_step(m0, online, demo, n.overview_attempted, Section::Overview);
    let (m2, a2, c2) = load_step(m1, online, demo, n.email_attempted, Section::Email);
    (Navigation { overview_attempted: a1, email_attempted: a2, ..n }, m2, c1 + c2)
}

/// The page loads each section once per session: opening it again, with nothing changed
/// in between, sends nothing and changes nothing.
pub proof fn law_sync_loads_once(
    n0: Navigation,
    generation: u64,
    m0: SettingsModel,
    online: bool,
    demo: bool,
)
    ensures
        ({
            let (n, m, c) = spec_sync(n0, generation, m0, online, demo);
            spec_sync(n, generation, m, online, demo) == (n, m, Seq::<Command>::empty())
        }),
{
    assert(seq![] + seq![] =~= Seq::<Command>::empty());
}

/// The page as it stands for the session `generation`.
pub open spec fn page_for(n: Navigation, generation: u64) -> Navigation {
    if n.generation != generation {
        Navigation::fresh(generation)
    } else {
        n
    }
}

/// One section's first load: sent where it was not tried yet and nothing is in flight.
/// Gives the settings after it, whether it counts as tried, and the command it sends.
pub open spec fn load_step(
    m: SettingsModel,
    online: bool,
    demo: bool,
    attempted: bool,
    section: Section,
) -> (SettingsModel, bool, Seq<Command>) {
    if !attempted && m.pending is None {
        let after = command_after(m, online, demo, section, None);
        (
            after,
            true,
            if command_sent(m, online, demo) {
                seq![Command::AccountNotificationSettings { request: after.request, section, change: None }]
            } else {
                seq![]
            },
        )
    } else {
        (m, attempted, seq![])
    }
}

pub open spec fn spec_reaction_label(value: u32) -> &'static str {
    if value == 0 {
        "All Messages"
    } else if value == 1 {
        "Only Direct Messages"
    } else if value == 2 {
        "Never"
    } else {
        "Custom setting"
    }
}

/// What the reactions selector shows for a setting.
pub fn reaction_label(value: u32) -> (r: &'static str)
    ensures
        r == spec_reaction_label(value),
{
    if value == 0 {
        "All Messages"
    } else if value == 1 {
        "Only Direct Messages"
    } else if value == 2 {
        "Never"
    } else {
        "Custom setting"
    }
}

/// What the page shows under one section of the account preferences.
#[derive(Clone, Copy, Debug, PartialEq, Eq, Structural)]
pub struct SectionStatus {
    /// The section's controls take input.
    pub editable: bool,
    /// A request for the section is in flight.
    pub saving: bool,
    /// The failure of the section's last request.
    pub error: Option<Failure>,
}

pub open spec fn spec_section_status(m: SettingsModel, section: Section) -> SectionStatus {
    SectionStatus {
        editable: m.pending is None && match section {
            Section::Overview => m.overview is Some,
            Section::Email => m.email is Some,
        },
        saving: m.pending == Some(section),
        error: match section {
            Section::Overview => m.overview_error,
            Section::Email => m.email_error,
        },
    }
}

/// A section takes input once it is loaded and while nothing is in flight; it shows that a
/// request for it is in flight, and its last failure.
pub fn section_status(state: &State, section: Section) -> (r: SectionStatus)
    ensures
        r == spec_section_status(state.notification_settings@, section),
{
    let settings = &state.notification_settings;
    let loaded = match section {
        Section::Overview => settings.overview().is_some(),
        Section::Email => settings.email().is_some(),
    };
    let pending = settings.pending();
    SectionStatus {
        editable: pending.is_none() && loaded,
        saving: match pending {
            Some(p) => p == section,
            None => false,
        },
        error: match section {
            Section::Overview => settings.overview_error(),
            Section::Email => settings.email_error(),
        },
    }
}

pub open spec fn spec_badge_detail(supported: bool) -> &'static str {
    if supported {
        "Shows a red badge on the app icon when you have unread messages."
    } else {
        "App icon badges are not available on this platform yet."
    }
}

/// The note under the unread badge switch, which takes input only where badges exist.
pub fn badge_detail(supported: bool) -> (r: &'static str)
    ensures
        r == spec_badge_detail(supported),
{
    if supported {
        "Shows a red badge on the app icon when you have unread messages."
    } else {
        "App icon badges are not available on this platform yet."
    }
}

pub open spec fn spec_account_note(demo: bool, status: &'static str) -> &'static str {
    if demo {
        "Offline preview"
    } else {
        status
    }
}

/// The note under the desktop notification switch: the offline demo says so; otherwise
/// the status of the desktop notifications.
pub fn account_note(demo: bool, status: &'static str) -> (r: &'static str)
    ensures
        r == spec_account_note(demo, status),
{
    if demo {
        "Offline preview"
    } else {
        status
    }
}

} // verus!
