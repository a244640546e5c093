//! One bounded, session-only composer member lookup.
use crate::auth::Failure;
use crate::client::{Command, State};
use crate::model::{encode_utf8_len, Id};
use crate::text::{has_control, spec_is_control};
use vstd::prelude::*;
use vstd::view::View as _;
use vstd::string::StrSliceExecFns;

verus! {

/// The most members that one lookup keeps.
pub const LIMIT: usize = 100;

/// The most memory that the members of one lookup hold.
pub const MAX_BYTES: usize = 131072;

/// The in-place size that a member is counted at, besides its name. A bound chosen by this
/// library: the member model's own accounting is not part of this crate.
pub const MEMBER_OVERHEAD: usize = 64;

/// The longest member name, in UTF-8 bytes. A bound chosen by this library, like
/// `MEMBER_OVERHEAD`.
pub const MAX_MEMBER_NAME: usize = 512;

/// A channel that the client knows: its guild, if any, and whether the user may view it.
#[derive(Clone, Copy, Debug, PartialEq, Eq, Structural)]
pub struct Channel {
    pub id: Id,
    pub guild: Option<Id>,
    pub viewable: bool,
}

/// A guild member that a lookup returned.
#[derive(Clone, Debug)]
pub struct Member {
    pub id: Id,
    pub name: String,
}

impl Member {
    pub open spec fn spec_valid(&self) -> bool {
        &&& self.id.0 != 0
        &&& self.name@.len() > 0
        &&& encode_utf8_len(self.name@) <= MAX_MEMBER_NAME
    }

    /// A member has an id and a name of bounded length.
    pub fn valid(&self) -> (r: bool)
        ensures
            r == self.spec_valid(),
    {
        self.id.0 != 0 && !self.name.as_str().is_empty() && crate::text::string_len(&self.name)
            <= MAX_MEMBER_NAME
    }

    pub open spec fn spec_bytes(&self) -> nat {
        MEMBER_OVERHEAD as nat + encode_utf8_len(self.name@)
    }

    /// The memory that a member is counted at.
    pub fn bytes(&self) -> (r: usize)
        requires
            encode_utf8_len(self.name@) <= usize::MAX - MEMBER_OVERHEAD,
        ensures
            r == self.spec_bytes(),
    {
        MEMBER_OVERHEAD + crate::text::string_len(&self.name)
    }
}

/// A lookup names a guild and a channel, and a query of 1 to 64 characters and at most
/// 256 bytes, without control characters.
pub open spec fn request_valid(guild: Id, channel: Id, query: Seq<char>, slot: usize) -> bool {
    &&& guild.0 != 0
    &&& channel.0 != 0
    &&& slot == 0
    &&& query.len() > 0
    &&& encode_utf8_len(query) <= 256
    &&& query.len() <= 64
    &&& !exists|k: int| 0 <= k < query.len() && spec_is_control(#[trigger] query[k])
}

/// A member lookup: the guild and channel it is for, the query, and its identity.
#[derive(Clone, Debug, PartialEq, Eq)]
pub struct Request {
    pub guild: Id,
    pub channel: Id,
    pub query: String,
    pub nonce: u64,
    pub slot: usize,
}

impl Request {
    pub open spec fn spec_valid(&self) -> bool {
        request_valid(self.guild, self.channel, self.query@, self.slot)
    }

    /// A lookup names a guild and a channel, and a short query without control characters.
    pub fn valid(&self) -> (r: bool)
        ensures
            r == self.spec_valid(),
    {
        self.guild.0 != 0 && self.channel.0 != 0 && self.slot == 0 && !self.query.as_str().is_empty()
            && crate::text::string_len(&self.query) <= 256 && self.query.as_str().unicode_len() <= 64
            && !has_control(self.query.as_str())
    }

    /// Whether two lookups are the same one.
    pub open spec fn same(&self, other: &Request) -> bool {
        &&& self.guild == other.guild
        &&& self.channel == other.channel
        &&& self.query@ == other.query@
        &&& self.nonce == other.nonce
        &&& self.slot == other.slot
    }

    pub fn same_as(&self, other: &Request) -> (r: bool)
        ensures
            r == self.same(other),
    {
        self.guild.0 == other.guild.0 && self.channel.0 == other.channel.0 && self.nonce
            == other.nonce && self.slot == other.slot && crate::text::str_eq(
            self.query.as_str(),
            other.query.as_str(),
        )
    }

    pub fn copy(&self) -> (r: Request)
        ensures
            r == *self,
    {
        Request {
            guild: self.guild,
            channel: self.channel,
            query: self.query.clone(),
            nonce: self.nonce,
            slot: self.slot,
        }
    }
}

/// What the composer shows of a lookup.
pub struct View {
    pub request: Option<Request>,
    pub rows: Vec<Member>,
    pub finished: bool,
    pub error: Option<&'static str>,
}

impl View {
    pub open spec fn is_empty(&self) -> bool {
        &&& self.request is None
        &&& self.rows@.len() == 0
        &&& !self.finished
        &&& self.error is None
    }

    pub fn new() -> (r: View)
        ensures
            r.is_empty(),
    {
        View { request: None, rows: Vec::new(), finished: false, error: None }
    }
}

/// The memory that `rows` are counted at.
pub open spec fn rows_bytes(rows: Seq<Member>) -> nat
    decreases rows.len(),
{
    if rows.len() == 0 {
        0
    } else {
        rows_bytes(rows.drop_last()) + rows.last().spec_bytes()
    }
}

/// Whether a lookup's answer is kept: few enough valid members, in little enough memory.
pub open spec fn rows_accepted(rows: Seq<Member>) -> bool {
    &&& rows.len() <= LIMIT
    &&& forall|k: int| 0 <= k < rows.len() ==> (#[trigger] rows[k]).spec_valid()
    &&& rows_bytes(rows) <= MAX_BYTES
}

/// The message shown where a lookup's answer is refused.
pub open spec fn limit_message() -> &'static str {
    "Member search exceeded its safety limit"
}

fn rows_within_limits(rows: &Vec<Member>) -> (r: bool)
    ensures
        r == rows_accepted(rows@),
{
    if rows.len() > LIMIT {
        return false;
    }
    let mut sum: usize = 0;
    let mut i: usize = 0;
    while i < rows.len()
        invariant
            i <= rows.len() <= LIMIT,
            forall|k: int| 0 <= k < i ==> (#[trigger] rows@[k]).spec_valid(),
            sum == rows_bytes(rows@.take(i as int)),
            sum <= MAX_BYTES,
        decreases rows.len() - i,
    {
        proof {
            assert(rows@.take(i + 1).drop_last() =~= rows@.take(i as int));
        }
        if !rows[i].valid() {
            return false;
        }
        let b = rows[i].bytes();
        if b > MAX_BYTES - sum {
            proof {
                lemma_rows_bytes_prefix(rows@, i + 1);
            }
            return false;
        }
        sum = sum + b;
        i = i + 1;
    }
    proof {
        assert(rows@.take(rows.len() as int) =~= rows@);
    }
    true
}

proof fn lemma_rows_bytes_prefix(rows: Seq<Member>, i: int)
    requires
        0 <= i <= rows.len(),
    ensures
        rows_bytes(rows.take(i)) <= rows_bytes(rows),
    decreases rows.len(),
{
    if i < rows.len() {
        assert(rows.drop_last().take(i) =~= rows.take(i));
        lemma_rows_bytes_prefix(rows.drop_last(), i);
    } else {
        assert(rows.take(i) =~= rows);
    }
}

/// The first channel with id `id`.
pub open spec fn find_channel(channels: Seq<Channel>, id: Id) -> Option<Channel>
    decreases channels.len(),
{
    if channels.len() == 0 {
        None
    } else if channels[0].id == id {
        Some(channels[0])
    } else {
        find_channel(channels.drop_first(), id)
    }
}

fn same_id(a: Option<Id>, b: Id) -> (r: bool)
    ensures
        r == (a == Some(b)),
{
    match a {
        Some(x) => x.0 == b.0,
        None => false,
    }
}

impl State {
    pub open spec fn spec_channel(self, id: Id) -> Option<Channel> {
        find_channel(self.channels@, id)
    }

    pub open spec fn spec_can_view(self, id: Id) -> bool {
        self.spec_channel(id) matches Some(c) && c.viewable
    }

    /// The channel with id `id`.
    pub fn channel(&self, id: Id) -> (r: Option<Channel>)
        ensures
            r == self.spec_channel(id),
    {
        let mut i: usize = 0;
        proof {
            assert(self.channels@.skip(0) =~= self.channels@);
        }
        while i < self.channels.len()
            invariant
                i <= self.channels@.len(),
                find_channel(self.channels@, id) == find_channel(self.channels@.skip(i as int), id),
            decreases self.channels.len() - i,
        {
            proof {
                assert(self.channels@.skip(i as int).drop_first() =~= self.channels@.skip(i + 1));
            }
            if self.channels[i].id.0 == id.0 {
                return Some(self.channels[i]);
            }
            i = i + 1;
        }
        None
    }

    /// Whether the user may view the channel with id `id`.
    pub fn can_view(&self, id: Id) -> (r: bool)
        ensures
            r == self.spec_can_view(id),
    {
        match self.channel(id) {
            Some(c) => c.viewable,
            None => false,
        }
    }

    /// Whether a lookup for `channel` may start: a guild channel, selected, viewable, online.
    pub open spec fn search_allowed(self, channel: Id, slot: usize) -> bool {
        &&& self.spec_channel(channel) matches Some(c) && c.guild is Some
        &&& slot == 0
        &&& self.gateway_connected
        &&& self.spec_can_view(channel)
        &&& self.selected == Some(channel)
    }

    pub fn search_members(&mut self, channel: Id, query: &str, slot: usize) -> (r: Option<Command>)
        ensures
            !old(self).search_allowed(channel, slot) ==> r is None && *final(self) == *old(self),
            old(self).search_allowed(channel, slot) ==> ({
                let nonce = crate::client::next_request(old(self).member_search_nonce);
                let guild = old(self).spec_channel(channel)->0.guild->0;
                &&& final(self).member_search_nonce == nonce
                &&& final(self).notification_settings == old(self).notification_settings
                &&& final(self).channels == old(self).channels
                &&& final(self).selected == old(self).selected
                &&& final(self).gateway_connected == old(self).gateway_connected
                &&& final(self).auth == old(self).auth
                &&& final(self).demo == old(self).demo
                &&& final(self).relationships == old(self).relationships
                &&& final(self).friends == old(self).friends
                &&& final(self).suppressed == old(self).suppressed
                &&& final(self).scopes == old(self).scopes
                &&& match r {
                    Some(Command::MemberSearch(req)) => {
                        &&& req.spec_valid()
                        &&& req.guild == guild
                        &&& req.channel == channel
                        &&& req.query@ == query@
                        &&& req.nonce == nonce
                        &&& req.slot == slot
                        &&& final(self).member_search.request == Some(req)
                        &&& final(self).member_search.rows@.len() == 0
                        &&& !final(self).member_search.finished
                        &&& final(self).member_search.error is None
                    },
                    Some(_) => false,
                    None => {
                        &&& !request_valid(guild, channel, query@, slot)
                        &&& final(self).member_search == old(self).member_search
                    },
                }
            }),
    {
        let guild = match self.channel(channel) {
            Some(c) => match c.guild {
                Some(g) => g,
                None => return None,
            },
            None => return None,
        };
        if slot != 0 || !self.gateway_connected || !self.can_view(channel) || !same_id(
            self.selected,
            channel,
        ) {
            return None;
        }
        self.member_search_nonce = self.member_search_nonce.wrapping_add(1);
        let request = Request {
            guild,
            channel,
            query: query.to_owned(),
            nonce: self.member_search_nonce,
            slot,
        };
        if !request.valid() {
            return None;
        }
        self.member_search = View {
            request: Some(request.copy()),
            rows: Vec::new(),
            finished: false,
            error: None,
        };
        Some(Command::MemberSearch(request))
    }
}

impl State {
    /// Whether an answer for `request` is still wanted: the lookup is the current one, and its
    /// channel is still selected, viewable, in the same guild, and online.
    pub open spec fn search_current(self, request: Request) -> bool {
        &&& request.spec_valid()
        &&& self.selected == Some(request.channel)
        &&& self.gateway_connected
        &&& self.spec_can_view(request.channel)
        &&& self.spec_channel(request.channel) matches Some(c) && c.guild == Some(request.guild)
        &&& self.member_search.request matches Some(r) && r.same(&request)
    }

    /// The state `after` the answer `result` to `request`: an answer that is no longer wanted
    /// changes nothing; otherwise the lookup finishes with the members, where they are within
    /// the limits, or with a message.
    pub open spec fn search_answered(
        self,
        after: State,
        request: Request,
        result: Result<Vec<Member>, Failure>,
    ) -> bool {
        if !self.search_current(request) {
            after == self
        } else {
            &&& after.auth == self.auth
            &&& after.gateway_connected == self.gateway_connected
            &&& after.demo == self.demo
            &&& after.notification_settings == self.notification_settings
            &&& after.selected == self.selected
            &&& after.channels == self.channels
            &&& after.member_search_nonce == self.member_search_nonce
            &&& after.relationships == self.relationships
            &&& after.friends == self.friends
            &&& after.suppressed == self.suppressed
            &&& after.scopes == self.scopes
            &&& after.member_search.request == self.member_search.request
            &&& after.member_search.finished
            &&& match result {
                Ok(rows) => if rows_accepted(rows@) {
                    after.member_search.rows == rows && after.member_search.error
                        == self.member_search.error
                } else {
                    after.member_search.rows == self.member_search.rows
                        && after.member_search.error == Some(limit_message())
                },
                Err(e) => after.member_search.rows == self.member_search.rows
                    && after.member_search.error == Some(e.spec_label()),
            }
        }
    }

    fn search_is_current(&self, request: &Request) -> (r: bool)
        ensures
            r == self.search_current(*request),
    {
        if !request.valid() || !same_id(self.selected, request.channel) || !self.gateway_connected
            || !self.can_view(request.channel) {
            return false;
        }
        match self.channel(request.channel) {
            Some(c) => match c.guild {
                Some(g) => if g.0 != request.guild.0 {
                    return false;
                },
                None => return false,
            },
            None => return false,
        }
        match &self.member_search.request {
            Some(r) => r.same_as(request),
            None => false,
        }
    }

    /// Stores the answer to a member lookup, where it is still wanted.
    pub fn searched_members(&mut self, request: Request, result: Result<Vec<Member>, Failure>)
        ensures
            old(self).search_answered(*final(self), request, result),
    {
        if !self.search_is_current(&request) {
            return ;
        }
        self.member_search.finished = true;
        match result {
            Ok(rows) => {
                if rows_within_limits(&rows) {
                    self.member_search.rows = rows;
                } else {
                    self.member_search.error = Some("Member search exceeded its safety limit");
                }
            },
            Err(error) => {
                self.member_search.error = Some(error.label());
            },
        }
    }
}

} // verus!
