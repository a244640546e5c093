//! What every sequence of requests and acknowledgements keeps: one request at a time, no
//! local change before Discord confirms it, stale answers ignored, and a social queue that
//! drops repeats.
use crate::auth::Failure;
use crate::client::{
    ack_after, ack_fails_session, body_refused, command_after, command_sent, enqueued,
    first_allowed, next_request, seen_after, SettingsModel, State, SEEN_IDS,
};
use crate::model::{Change, Section, Snapshot, SocialNotification};
use vstd::prelude::*;

verus! {

/// While a request is in flight, no other request starts and nothing changes.
pub proof fn law_pending_blocks_requests(
    m: SettingsModel,
    online: bool,
    demo: bool,
    section: Section,
    change: Option<Change>,
)
    requires
        m.pending is Some,
    ensures
        command_after(m, online, demo, section, change) == m,
        !command_sent(m, online, demo),
{
}

/// The offline demo never sends an account command and never waits for one.
pub proof fn law_demo_stays_offline(
    m: SettingsModel,
    online: bool,
    section: Section,
    change: Option<Change>,
)
    ensures
        !command_sent(m, online, true),
        command_after(m, online, true, section, change).pending == m.pending,
        command_after(m, online, true, section, change).request == m.request,
{
}

/// Outside the demo, a request changes no preference: only Discord's acknowledgement does.
pub proof fn law_updates_wait_for_ack(
    m: SettingsModel,
    online: bool,
    section: Section,
    change: Option<Change>,
)
    ensures
        command_after(m, online, false, section, change).overview == m.overview,
        command_after(m, online, false, section, change).email == m.email,
{
}

/// An answer to any request but the one in flight changes nothing.
pub proof fn law_stale_ack_ignored(m: SettingsModel, request: u64, result: Result<Snapshot, Failure>)
    requires
        m.pending is None || request != m.request,
    ensures
        ack_after(m, request, result) == m,
        !ack_fails_session(m, request, result),
{
}

/// A new request has a new identity, so an answer to the previous one is then ignored.
pub proof fn law_new_request_supersedes(
    m: SettingsModel,
    online: bool,
    section: Section,
    change: Option<Change>,
    result: Result<Snapshot, Failure>,
)
    requires
        command_sent(m, online, false),
    ensures
        command_after(m, online, false, section, change).request == next_request(m.request),
        next_request(m.request) != m.request,
        ack_after(command_after(m, online, false, section, change), m.request, result)
            == command_after(m, online, false, section, change),
{
}

/// A request answered with its section's confirmed preferences stores them and is no
/// longer in flight.
pub proof fn law_ack_stores_confirmed(
    m: SettingsModel,
    online: bool,
    section: Section,
    change: Option<Change>,
    snapshot: Snapshot,
)
    requires
        command_sent(m, online, false),
        match snapshot {
            Snapshot::Overview(_) => section == Section::Overview,
            Snapshot::Email(_) => section == Section::Email,
        },
    ensures
        ({
            let m1 = command_after(m, online, false, section, change);
            let m2 = ack_after(m1, m1.request, Ok(snapshot));
            &&& m2.pending is None
            &&& match snapshot {
                Snapshot::Overview(v) => m2.overview == Some(v) && m2.overview_error is None,
                Snapshot::Email(v) => m2.email == Some(v) && m2.email_error is None,
            }
            &&& m2.error is None
        }),
{
}

/// Once a notification was received, the same notification again changes nothing: its id
/// is remembered.
pub proof fn law_receive_deduplicates(s: State, t: State, item: SocialNotification, c1: usize, c2: usize)
    requires
        s.wf(),
        t.same_but_settings(s),
        t.notification_settings@ == s.received(item, c1),
        !crate::client::body_refused(item, c1),
        !s.notification_settings@.seen.contains(item.id),
    ensures
        t.notification_settings@.seen.contains(item.id),
        t.received(item, c2) == t.notification_settings@,
{
    let m = s.notification_settings@;
    let seen = seen_after(m.seen, item.id);
    assert(seen[seen.len() - 1] == item.id);
    assert(t.notification_settings@.seen == seen);
}

/// Receiving the same notification twice queues it once: into an empty queue, two
/// receipts leave at most that notification; a take hands out at most it, and the next
/// take hands out nothing.
pub proof fn law_duplicate_taken_once(
    s: State,
    t: State,
    u: State,
    v: State,
    item: SocialNotification,
    c1: usize,
    c2: usize,
)
    requires
        s.wf(),
        s.notification_settings@.social.len() == 0,
        t.same_but_settings(s),
        t.notification_settings@ == s.received(item, c1),
        u.same_but_settings(t),
        u.notification_settings@ == t.received(item, c2),
        v.same_but_settings(u),
        v.notification_settings@ == u.taken().1,
    ensures
        u.notification_settings@.social.len() <= 1,
        u.notification_settings@.social.len() == 1 ==> u.notification_settings@.social[0] == item,
        u.taken().0 is Some ==> u.taken().0 == Some(item),
        v.taken().0 is None,
{
    let q = u.notification_settings@.social;
    crate::client::law_social_queue_bounded(s);
    assert(s.notification_settings@.sizes.len() == 0);
    assert(t.notification_settings@.social.len() <= 1 && (t.notification_settings@.social.len()
        == 1 ==> t.notification_settings@.social[0] == item)) by {
        let m = s.notification_settings@;
        if !body_refused(item, c1) && !m.seen.contains(item.id) {
            let m1 = SettingsModel { seen: seen_after(m.seen, item.id), ..m };
            let b = crate::client::notification_bytes(c1) as usize;
            if s.spec_allowed(item) && b <= crate::client::SOCIAL_BYTES {
                let k = crate::client::evictions(m1.sizes, b as int) as int;
                assert(k == 0);
                assert(m1.social.skip(k) =~= Seq::<SocialNotification>::empty());
                assert(enqueued(m1, item, b).social =~= seq![item]);
            }
        }
    }
    let mt = t.notification_settings@;
    if !body_refused(item, c2) && !mt.seen.contains(item.id) {
        let m = s.notification_settings@;
        assert(body_refused(item, c1) || m.seen.contains(item.id)) by {
            if !body_refused(item, c1) && !m.seen.contains(item.id) {
                let sa = seen_after(m.seen, item.id);
                assert(sa[sa.len() - 1] == item.id);
                assert(mt.seen == sa);
            }
        }
        assert(mt == m);
        let m1 = SettingsModel { seen: seen_after(mt.seen, item.id), ..mt };
        let b = crate::client::notification_bytes(c2) as usize;
        if t.spec_allowed(item) && b <= crate::client::SOCIAL_BYTES {
            let k = crate::client::evictions(m1.sizes, b as int) as int;
            assert(k == 0);
            assert(m1.social.skip(k) =~= Seq::<SocialNotification>::empty());
            assert(enqueued(m1, item, b).social =~= seq![item]);
        }
    }
    assert(q.len() <= 1);
    if q.len() == 1 {
        assert(q.drop_first() =~= Seq::<SocialNotification>::empty());
        assert(first_allowed(u, q.drop_first()) is None);
        assert(q.skip(1) =~= Seq::<SocialNotification>::empty());
    }
    assert(v.notification_settings@.social =~= Seq::<SocialNotification>::empty());
}

/// A waiting notification is handed out only where the preferences allow it then.
pub proof fn law_take_returns_allowed(s: State, q: Seq<SocialNotification>)
    ensures
        first_allowed(s, q) matches Some(k) ==> k < q.len() && s.spec_allowed(q[k as int]),
    decreases q.len(),
{
    if q.len() > 0 && !s.spec_allowed(q[0]) {
        law_take_returns_allowed(s, q.drop_first());
        if let Some(k) = first_allowed(s, q.drop_first()) {
            assert(q.drop_first()[k as int] == q[k + 1int]);
        }
    }
}

} // verus!
