//! The cache of one connection: what its user may currently see.

use vstd::prelude::*;
use crate::channel::{Channel, ChannelView};
use crate::ids::Id;
use crate::member::{Member, MemberView};
use crate::recent::SeenEvents;
use crate::record::{views, Record};
use crate::server::{Server, ServerView};
use crate::table::Table;
use crate::user::{User, UserView};

verus! {

/// Whether a channel is visible to a viewer who holds the permission to view
/// it or not: a channel of a server goes by the permission, any other channel
/// is always visible.
pub open spec fn visible(channel: ChannelView, granted: bool) -> bool {
    channel.server() is None || granted
}

/// Those of `channels` that are visible, in their order, where `granted`
/// holds for each channel whether the viewer may view it.
pub open spec fn accessible(channels: Seq<ChannelView>, granted: Seq<bool>) -> Seq<ChannelView>
    decreases channels.len(),
{
    if channels.len() == 0 || granted.len() != channels.len() {
        Seq::empty()
    } else if visible(channels.last(), granted.last()) {
        accessible(channels.drop_last(), granted.drop_last()).push(channels.last())
    } else {
        accessible(channels.drop_last(), granted.drop_last())
    }
}

/// Everything that one connection knows.
pub struct Cache {
    /// The connection's user, the viewer.
    pub user_id: String,
    pub users: Table<User>,
    pub channels: Table<Channel>,
    /// The viewer's own membership of each server, under the server's
    /// identifier.
    pub members: Table<Member>,
    pub servers: Table<Server>,
    /// The identifiers of the user updates handled last.
    pub seen_events: SeenEvents,
}

/// What a cache stands for: the model that contracts speak of.
pub struct CacheView {
    pub user_id: Id,
    pub users: Map<Id, UserView>,
    pub channels: Map<Id, ChannelView>,
    /// The cached channels' identifiers, oldest first.
    pub channel_order: Seq<Id>,
    pub members: Map<Id, MemberView>,
    pub servers: Map<Id, ServerView>,
    /// The cached servers' identifiers, oldest first.
    pub server_order: Seq<Id>,
    pub seen: Seq<Id>,
    pub capacity: nat,
}

impl View for Cache {
    type V = CacheView;

    open spec fn view(&self) -> CacheView {
        CacheView {
            user_id: self.user_id@,
            users: self.users@,
            channels: self.channels@,
            channel_order: self.channels.order(),
            members: self.members@,
            servers: self.servers@,
            server_order: self.servers.order(),
            seen: self.seen_events.order(),
            capacity: self.seen_events.capacity(),
        }
    }
}

/// What the permission engine needs to decide whether the viewer may view a
/// channel of a server: the viewer, the channel, and the viewer's membership
/// and the server as far as the cache holds them.
pub struct PermissionContext<'a> {
    pub user: &'a User,
    pub channel: &'a Channel,
    pub member: Option<&'a Member>,
    pub server: Option<&'a Server>,
}

impl CacheView {
    /// The orders list the keys of the maps, each once; the memory of seen
    /// events is within its capacity; the viewer's own record is known.
    pub open spec fn wf(self) -> bool {
        &&& self.channel_order.no_duplicates()
        &&& self.channels.dom() == self.channel_order.to_set()
        &&& self.server_order.no_duplicates()
        &&& self.servers.dom() == self.server_order.to_set()
        &&& self.capacity >= 1
        &&& self.seen.len() <= self.capacity
        &&& self.seen.no_duplicates()
        &&& self.users.contains_key(self.user_id)
    }

    /// Whether a cached direct message or group has `user` among its
    /// recipients.
    pub open spec fn shares_channel(self, user: Id) -> bool {
        exists|c: Id| #[trigger]
            self.channels.contains_key(c) && self.channels[c].recipients().contains(user)
    }

    /// Whether the viewer follows `user`: as a friend, through a pending
    /// request, as themselves, or through a shared direct message or group.
    pub open spec fn can_subscribe_to_user(self, user: Id) -> bool {
        self.users.contains_key(self.user_id) && (self.users[self.user_id].relationship_with(
            user,
        ).spec_follows() || self.shares_channel(user))
    }
}

impl Cache {
    /// The tables are well formed and the viewer's own record is known.
    pub open spec fn wf(&self) -> bool {
        &&& self.users.wf()
        &&& self.channels.wf()
        &&& self.members.wf()
        &&& self.servers.wf()
        &&& self.seen_events.wf()
        &&& self.users@.contains_key(self.user_id@)
    }

    /// A well-formed cache has a well-formed view.
    pub proof fn lemma_view_wf(&self)
        requires
            self.wf(),
        ensures
            self@.wf(),
    {
        self.channels.lemma_keys();
        self.servers.lemma_keys();
        self.seen_events.lemma_bounded();
    }

    /// The cache of a connection that has seen nothing but its own user, with
    /// a memory of `capacity` event identifiers.
    pub fn new(user: User, capacity: usize) -> (r: Cache)
        requires
            capacity >= 1,
        ensures
            r.wf(),
            r@.user_id == user@.id,
            r@.users == Map::<Id, UserView>::empty().insert(user@.id, user@),
            r@.channels == Map::<Id, ChannelView>::empty(),
            r@.channel_order == Seq::<Id>::empty(),
            r@.members == Map::<Id, MemberView>::empty(),
            r@.servers == Map::<Id, ServerView>::empty(),
            r@.server_order == Seq::<Id>::empty(),
            r@.seen == Seq::<Id>::empty(),
            r@.capacity == capacity,
    {
        let user_id = user.id.clone();
        let mut users: Table<User> = Table::new();
        users.insert(user.id.clone(), user);
        Cache {
            user_id,
            users,
            channels: Table::new(),
            members: Table::new(),
            servers: Table::new(),
            seen_events: SeenEvents::new(capacity),
        }
    }

    /// What to ask the permission engine about `channel`: nothing for a
    /// channel that belongs to no server, which is always visible.
    pub fn permission_context<'a>(&'a self, channel: &'a Channel) -> (r: Option<
        PermissionContext<'a>,
    >)
        requires
            self.wf(),
        ensures
            r is Some == channel@.server() is Some,
            match r {
                Some(context) => {
                    let server = channel@.server()->0;
                    &&& context.user@ == self@.users[self@.user_id]
                    &&& context.channel@ == channel@
                    &&& match context.member {
                        Some(m) => self@.members.contains_key(server) && m@
                            == self@.members[server],
                        None => !self@.members.contains_key(server),
                    }
                    &&& match context.server {
                        Some(s) => self@.servers.contains_key(server) && s@
                            == self@.servers[server],
                        None => !self@.servers.contains_key(server),
                    }
                },
                None => true,
            },
    {
        match channel.server() {
            Some(server) => {
                let user = self.users.get(self.user_id.as_str());
                match user {
                    Some(user) => Some(
                        PermissionContext {
                            user,
                            channel,
                            member: self.members.get(server),
                            server: self.servers.get(server),
                        },
                    ),
                    None => None,
                }
            },
            None => None,
        }
    }

    /// Whether the viewer can view `channel`, given whether the permission
    /// engine grants them the permission to view it.
    pub fn can_view_channel(&self, channel: &Channel, granted: bool) -> (r: bool)
        ensures
            r == visible(channel@, granted),
    {
        match channel.server() {
            Some(_) => granted,
            None => true,
        }
    }

    /// Those of `channels` that the viewer can view, in their order, where
    /// `granted` holds the permission engine's answer for each.
    pub fn filter_accessible_channels(&self, channels: Vec<Channel>, granted: &Vec<bool>) -> (r:
        Vec<Channel>)
        ensures
            views(r@) == accessible(views(channels@), granted@),
    {
        let mut viewable_channels: Vec<Channel> = Vec::new();
        if granted.len() != channels.len() {
            assert(views(viewable_channels@) =~= Seq::<ChannelView>::empty());
            return viewable_channels;
        }
        let mut i: usize = 0;
        assert(views(channels@).take(0) =~= Seq::<ChannelView>::empty());
        while i < channels.len()
            invariant
                i <= channels.len(),
                granted.len() == channels.len(),
                views(viewable_channels@) == accessible(
                    views(channels@).take(i as int),
                    granted@.take(i as int),
                ),
            decreases channels.len() - i,
        {
            let ghost before = viewable_channels@;
            proof {
                let all = views(channels@);
                assert(all.take(i + 1).drop_last() =~= all.take(i as int));
                assert(granted@.take(i + 1).drop_last() =~= granted@.take(i as int));
                assert(all.take(i + 1).last() == channels[i as int]@);
            }
            if self.can_view_channel(&channels[i], granted[i]) {
                viewable_channels.push(channels[i].duplicate());
                assert(views(viewable_channels@) =~= views(before).push(channels[i as int]@));
            }
            i += 1;
        }
        proof {
            assert(views(channels@).take(channels.len() as int) =~= views(channels@));
            assert(granted@.take(granted.len() as int) =~= granted@);
        }
        viewable_channels
    }

    /// Whether the viewer follows `user_id`.
    pub fn can_subscribe_to_user(&self, user_id: &str) -> (r: bool)
        requires
            self.wf(),
        ensures
            r == self@.can_subscribe_to_user(user_id@),
    {
        if let Some(user) = self.users.get(self.user_id.as_str()) {
            if user.relationship_with(user_id).follows() {
                return true;
            }
            let mut i: usize = 0;
            while i < self.channels.len()
                invariant
                    i <= self.channels.order().len(),
                    self.wf(),
                    forall|j: int|
                        0 <= j < i ==> !self.channels@[self.channels.order()[j]].recipients().contains(
                            user_id@,
                        ),
                decreases self.channels.order().len() - i,
            {
                if self.channels.value_at(i).has_recipient(user_id) {
                    assert(self@.channels.contains_key(self.channels.order()[i as int]));
                    return true;
                }
                i += 1;
            }
            proof {
                self.channels.lemma_keys();
                assert forall|c: Id| #[trigger]
                    self@.channels.contains_key(c) implies !self@.channels[c].recipients().contains(
                    user_id@,
                ) by {
                    let j = self.channels.order().index_of(c);
                    assert(self.channels.order()[j] == c);
                }
            }
            false
        } else {
            false
        }
    }
}

} // verus!
