//! Account preferences on Discord: fresh reads, and minimal writes that count only once the
//! saved settings confirm them. The network layer performs each request that these
//! decisions name and hands back what came of it.
use crate::auth::Failure;
use crate::model::{Change, Email, Overview, Section, Snapshot};
use crate::protocol::{
    email_patch, encode_patch, patch_payload, spec_email_patch, EmailPatch, Settings,
    MAX_EMAIL_RESPONSE, MAX_SETTINGS_RESPONSE,
};
use crate::wire::DecodeError;
use vstd::prelude::*;

verus! {

/// Where the overview preferences are read and written.
pub const SETTINGS_PATH: &'static str = "/users/@me/settings-proto/1";

/// Where the email preferences are read and written.
pub const EMAIL_PATH: &'static str = "/users/@me/email-settings";

/// A read of one section's current preferences: the path, and the largest response read.
pub struct Fetch {
    pub path: &'static str,
    pub limit: usize,
}

/// Whether a change is refused before anything is sent: it is invalid, or for the other
/// section.
pub open spec fn change_refused(section: Section, change: Option<Change>) -> bool {
    change matches Some(c) && (!c.spec_valid() || c.spec_section() != section)
}

/// The read that starts an exchange for `section`, with `change` to make.
pub fn account_settings_fetch(section: Section, change: Option<Change>) -> (r: Result<Fetch, Failure>)
    ensures
        change_refused(section, change) ==> r == Err::<Fetch, Failure>(Failure::Protocol),
        !change_refused(section, change) ==> (r matches Ok(f) && match section {
            Section::Overview => f.path == SETTINGS_PATH && f.limit == MAX_SETTINGS_RESPONSE,
            Section::Email => f.path == EMAIL_PATH && f.limit == MAX_EMAIL_RESPONSE,
        }),
{
    if let Some(c) = change {
        if !c.valid() || !same_section(c.section(), section) {
            return Err(Failure::Protocol);
        }
    }
    match section {
        Section::Overview => Ok(Fetch { path: SETTINGS_PATH, limit: MAX_SETTINGS_RESPONSE }),
        Section::Email => Ok(Fetch { path: EMAIL_PATH, limit: MAX_EMAIL_RESPONSE }),
    }
}

fn same_section(a: Section, b: Section) -> (r: bool)
    ensures
        r == (a == b),
{
    match (a, b) {
        (Section::Overview, Section::Overview) | (Section::Email, Section::Email) => true,
        _ => false,
    }
}

/// What follows a read of the overview preferences.
pub enum OverviewStep {
    /// The exchange ends with this answer.
    Done(Result<Snapshot, Failure>),
    /// The change is written: PATCH `{"settings": settings, "required_data_version": version}`
    /// to the settings path, then the saved settings must hold `wanted`.
    Patch { settings: String, version: u64, wanted: Overview },
}

/// What follows a read of the email preferences.
pub enum EmailStep {
    /// The exchange ends with this answer.
    Done(Result<Snapshot, Failure>),
    /// The change is written: PATCH `{"settings": {"categories": patch}}` to the email path,
    /// then the saved settings must hold `wanted`.
    Patch { patch: EmailPatch, wanted: Email },
}

/// After the overview preferences were read as `current`: a read alone, or a change that
/// changes nothing, ends with the current preferences; otherwise the change is written.
pub fn account_overview_current(change: Option<Change>, current: Result<Settings, DecodeError>) -> (r:
    OverviewStep)
    ensures
        match current {
            Err(_) => r == OverviewStep::Done(Err(Failure::Unavailable)),
            Ok(cur) => match change {
                None => r == OverviewStep::Done(Ok(Snapshot::Overview(cur@.overview))),
                Some(c) => if c.overview_after(cur@.overview) == cur@.overview {
                    r == OverviewStep::Done(Ok(Snapshot::Overview(cur@.overview)))
                } else {
                    match patch_payload(cur@, c) {
                        None => r == OverviewStep::Done(Err(Failure::Protocol)),
                        Some(p) => r matches OverviewStep::Patch { settings, version, wanted }
                            && settings@ == crate::protocol::base64_standard_encode(p) && version
                            == cur@.version && wanted == c.overview_after(cur@.overview),
                    }
                },
            },
        },
{
    let current = match current {
        Ok(c) => c,
        Err(_) => return OverviewStep::Done(Err(Failure::Unavailable)),
    };
    let change = match change {
        Some(c) => c,
        None => return OverviewStep::Done(Ok(Snapshot::Overview(current.overview()))),
    };
    let mut wanted = current.overview();
    change.apply_overview(&mut wanted);
    if wanted == current.overview() {
        return OverviewStep::Done(Ok(Snapshot::Overview(wanted)));
    }
    match encode_patch(&current, change) {
        Ok(settings) => OverviewStep::Patch { settings, version: current.version(), wanted },
        Err(_) => OverviewStep::Done(Err(Failure::Protocol)),
    }
}

/// After the overview write was answered with the settings `saved`: the write counts only
/// where they hold what was wanted.
pub fn account_overview_saved(wanted: Overview, saved: Result<Settings, DecodeError>) -> (r: Result<
    Snapshot,
    Failure,
>)
    ensures
        match saved {
            Ok(s) => if s@.overview == wanted {
                r == Ok::<Snapshot, Failure>(Snapshot::Overview(wanted))
            } else {
                r == Err::<Snapshot, Failure>(Failure::Unconfirmed)
            },
            Err(_) => r == Err::<Snapshot, Failure>(Failure::Unconfirmed),
        },
{
    match saved {
        Ok(s) => if s.overview() == wanted {
            Ok(Snapshot::Overview(wanted))
        } else {
            Err(Failure::Unconfirmed)
        },
        Err(_) => Err(Failure::Unconfirmed),
    }
}

/// After the email preferences were read as `current`: a read alone, or a change that
/// changes nothing, ends with the current preferences; otherwise the change is written.
pub fn account_email_current(change: Option<Change>, current: Result<Email, DecodeError>) -> (r:
    EmailStep)
    ensures
        match current {
            Err(_) => r == EmailStep::Done(Err(Failure::Unavailable)),
            Ok(cur) => match change {
                None => r == EmailStep::Done(Ok(Snapshot::Email(cur))),
                Some(c) => if c.email_after(cur) == cur {
                    r == EmailStep::Done(Ok(Snapshot::Email(cur)))
                } else {
                    match spec_email_patch(c) {
                        None => r == EmailStep::Done(Err(Failure::Protocol)),
                        Some(entries) => r matches EmailStep::Patch { patch, wanted }
                            && patch.categories@ == entries && wanted == c.email_after(cur),
                    }
                },
            },
        },
{
    let current = match current {
        Ok(c) => c,
        Err(_) => return EmailStep::Done(Err(Failure::Unavailable)),
    };
    let change = match change {
        Some(c) => c,
        None => return EmailStep::Done(Ok(Snapshot::Email(current))),
    };
    let mut wanted = current;
    change.apply_email(&mut wanted);
    if wanted == current {
        return EmailStep::Done(Ok(Snapshot::Email(wanted)));
    }
    match email_patch(change) {
        Ok(patch) => EmailStep::Patch { patch, wanted },
        Err(_) => EmailStep::Done(Err(Failure::Protocol)),
    }
}

/// After the email write was answered with the preferences `saved`: the write counts only
/// where they hold what was wanted.
pub fn account_email_saved(wanted: Email, saved: Result<Email, DecodeError>) -> (r: Result<
    Snapshot,
    Failure,
>)
    ensures
        match saved {
            Ok(s) => if s == wanted {
                r == Ok::<Snapshot, Failure>(Snapshot::Email(wanted))
            } else {
                r == Err::<Snapshot, Failure>(Failure::Unconfirmed)
            },
            Err(_) => r == Err::<Snapshot, Failure>(Failure::Unconfirmed),
        },
{
    match saved {
        Ok(s) => if s == wanted {
            Ok(Snapshot::Email(s))
        } else {
            Err(Failure::Unconfirmed)
        },
        Err(_) => Err(Failure::Unconfirmed),
    }
}

} // verus!
