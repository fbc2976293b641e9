//! The state of one connection: its cache and the topics it is subscribed to.

use vstd::prelude::*;
use crate::cache::{Cache, CacheView};
use crate::channel::{Channel, ChannelView};
use crate::ids::{id_seq, lacking, outside_of, without, Id, IdSet};
use crate::member::{Member, MemberView};
use crate::recent::remembered;
use crate::record::Record;
use crate::server::{Server, ServerView};
use crate::user::{User, UserView};

verus! {

/// One connection.
pub struct State {
    pub cache: Cache,
    /// The topic of this connection's session alone.
    pub private_topic: String,
    /// The topics that the connection receives events on.
    pub subscribed: IdSet,
}

/// What a state stands for: the model that contracts speak of.
pub struct StateView {
    pub cache: CacheView,
    pub private_topic: Id,
    pub subscribed: Set<Id>,
}

impl View for State {
    type V = StateView;

    open spec fn view(&self) -> StateView {
        StateView {
            cache: self.cache@,
            private_topic: self.private_topic@,
            subscribed: self.subscribed@,
        }
    }
}

/// What has changed about the subscriptions: the topics to subscribe to on
/// the transport and those to unsubscribe from.
#[derive(Debug, PartialEq, Eq)]
pub struct SubscriptionChange {
    pub add: Vec<String>,
    pub remove: Vec<String>,
}

impl StateView {
    /// The topics that follow from the cache: the private topic, the viewer,
    /// every user the viewer follows, every cached server and every cached
    /// channel.
    pub open spec fn derived_topics(self) -> Set<Id> {
        Set::new(
            |t: Id|
                t == self.private_topic || t == self.cache.user_id
                    || self.cache.can_subscribe_to_user(t) || self.cache.servers.contains_key(t)
                    || self.cache.channels.contains_key(t),
        )
    }

    /// The subscriptions are exactly the topics that follow from the cache.
    pub open spec fn in_step(self) -> bool {
        self.subscribed == self.derived_topics()
    }

    /// The subscriptions are exactly the topics that follow from the cache,
    /// but perhaps for the topics of `loose`.
    pub open spec fn in_step_but(self, loose: Set<Id>) -> bool {
        forall|t: Id|
            !loose.contains(t) ==> (#[trigger] self.subscribed.contains(t)
                <==> self.derived_topics().contains(t))
    }

    /// Whether `topic` names neither the connection nor anybody the viewer
    /// follows.
    pub open spec fn names_nobody(self, topic: Id) -> bool {
        topic != self.private_topic && topic != self.cache.user_id
            && !self.cache.can_subscribe_to_user(topic)
    }

    /// Whether the viewer follows the same users in `other` as here.
    pub open spec fn follows_as_in(self, other: StateView) -> bool {
        forall|t: Id| #[trigger]
            self.cache.can_subscribe_to_user(t) == other.cache.can_subscribe_to_user(t)
    }

    pub open spec fn subscribe(self, topic: Id) -> StateView {
        StateView { subscribed: self.subscribed.insert(topic), ..self }
    }

    pub open spec fn unsubscribe(self, topic: Id) -> StateView {
        StateView { subscribed: self.subscribed.remove(topic), ..self }
    }

    /// The state with `channel` cached under `id`: in the place of the
    /// channel that was there, or as the newest.
    pub open spec fn put_channel(self, id: Id, channel: ChannelView) -> StateView {
        StateView {
            cache: CacheView {
                channels: self.cache.channels.insert(id, channel),
                channel_order: if self.cache.channels.contains_key(id) {
                    self.cache.channel_order
                } else {
                    self.cache.channel_order.push(id)
                },
                ..self.cache
            },
            ..self
        }
    }

    pub open spec fn drop_channel(self, id: Id) -> StateView {
        StateView {
            cache: CacheView {
                channels: self.cache.channels.remove(id),
                channel_order: without(self.cache.channel_order, id),
                ..self.cache
            },
            ..self
        }
    }

    pub open spec fn put_server(self, id: Id, server: ServerView) -> StateView {
        StateView {
            cache: CacheView {
                servers: self.cache.servers.insert(id, server),
                server_order: if self.cache.servers.contains_key(id) {
                    self.cache.server_order
                } else {
                    self.cache.server_order.push(id)
                },
                ..self.cache
            },
            ..self
        }
    }

    pub open spec fn drop_server(self, id: Id) -> StateView {
        StateView {
            cache: CacheView {
                servers: self.cache.servers.remove(id),
                server_order: without(self.cache.server_order, id),
                ..self.cache
            },
            ..self
        }
    }

    pub open spec fn put_member(self, server: Id, member: MemberView) -> StateView {
        StateView {
            cache: CacheView { members: self.cache.members.insert(server, member), ..self.cache },
            ..self
        }
    }

    pub open spec fn drop_member(self, server: Id) -> StateView {
        StateView {
            cache: CacheView { members: self.cache.members.remove(server), ..self.cache },
            ..self
        }
    }

    pub open spec fn put_user(self, id: Id, user: UserView) -> StateView {
        StateView {
            cache: CacheView { users: self.cache.users.insert(id, user), ..self.cache },
            ..self
        }
    }

    /// The state after the event identifier `id` was recorded as seen.
    pub open spec fn remember(self, id: Id) -> StateView {
        StateView {
            cache: CacheView {
                seen: remembered(self.cache.seen, self.cache.capacity, id),
                ..self.cache
            },
            ..self
        }
    }
}

impl State {
    pub open spec fn wf(&self) -> bool {
        &&& self.cache.wf()
        &&& self.subscribed.wf()
    }

    /// The state of a connection that has just been opened for `user`: it
    /// knows its own user and is subscribed to its private topic and to the
    /// user.
    pub fn new(user: User, private_topic: String, capacity: usize) -> (r: State)
        requires
            capacity >= 1,
        ensures
            r.wf(),
            r@.private_topic == private_topic@,
            r@.subscribed == Set::<Id>::empty().insert(private_topic@).insert(user@.id),
            r@.cache.user_id == user@.id,
            r@.cache.users == Map::<Id, UserView>::empty().insert(user@.id, user@),
            r@.cache.channels == Map::<Id, ChannelView>::empty(),
            r@.cache.channel_order == Seq::<Id>::empty(),
            r@.cache.members == Map::<Id, MemberView>::empty(),
            r@.cache.servers == Map::<Id, ServerView>::empty(),
            r@.cache.server_order == Seq::<Id>::empty(),
            r@.cache.seen == Seq::<Id>::empty(),
            r@.cache.capacity == capacity,
    {
        let mut subscribed = IdSet::new();
        subscribed.insert(private_topic.clone());
        subscribed.insert(user.id.clone());
        State { cache: Cache::new(user, capacity), private_topic, subscribed }
    }

    /// A copy of the viewer's own record.
    pub fn clone_user(&self) -> (r: User)
        requires
            self.wf(),
        ensures
            r@ == self@.cache.users[self@.cache.user_id],
    {
        match self.cache.users.get(self.cache.user_id.as_str()) {
            Some(user) => user.duplicate(),
            None => vstd::pervasive::unreached(),
        }
    }

    /// The topics subscribed to, in the order in which they were added.
    pub fn topics(&self) -> (r: Vec<String>)
        ensures
            id_seq(r@) == self.subscribed.order(),
    {
        self.subscribed.to_vec()
    }

    /// What has changed about the subscriptions since they were `before`:
    /// the topics that are new, and those of `before` that are gone, each in
    /// its order.
    pub fn changes_since(&self, before: &Vec<String>) -> (r: SubscriptionChange)
        ensures
            id_seq(r.add@) == outside_of(self.subscribed.order(), id_seq(before@).to_set()),
            id_seq(r.remove@) == outside_of(id_seq(before@), self@.subscribed),
    {
        let now = self.subscribed.to_vec();
        proof {
            self.subscribed.lemma_view();
        }
        SubscriptionChange { add: lacking(&now, before), remove: lacking(before, &now) }
    }

    /// Forgets every subscription.
    pub fn reset_state(&mut self)
        requires
            old(self).wf(),
        ensures
            final(self).wf(),
            final(self)@ == (StateView { subscribed: Set::<Id>::empty(), ..old(self)@ }),
    {
        self.subscribed.clear();
    }

    /// Subscribes to `subscription`.
    pub fn insert_subscription(&mut self, subscription: String)
        requires
            old(self).wf(),
        ensures
            final(self).wf(),
            final(self)@ == old(self)@.subscribe(subscription@),
    {
        self.subscribed.insert(subscription);
    }

    /// Unsubscribes from `subscription`.
    pub fn remove_subscription(&mut self, subscription: &str)
        requires
            old(self).wf(),
        ensures
            final(self).wf(),
            final(self)@ == old(self)@.unsubscribe(subscription@),
    {
        self.subscribed.remove(subscription);
    }

    /// Caches `channel` under `id`.
    pub fn put_channel(&mut self, id: String, channel: Channel)
        requires
            old(self).wf(),
        ensures
            final(self).wf(),
            final(self)@ == old(self)@.put_channel(id@, channel@),
    {
        self.cache.channels.insert(id, channel);
    }

    /// Forgets the channel `id`.
    pub fn drop_channel(&mut self, id: &str)
        requires
            old(self).wf(),
        ensures
            final(self).wf(),
            final(self)@ == old(self)@.drop_channel(id@),
    {
        self.cache.channels.remove(id);
    }

    /// Caches `server` under `id`.
    pub fn put_server(&mut self, id: String, server: Server)
        requires
            old(self).wf(),
        ensures
            final(self).wf(),
            final(self)@ == old(self)@.put_server(id@, server@),
    {
        self.cache.servers.insert(id, server);
    }

    /// Forgets the server `id`, handing back what was cached of it.
    pub fn drop_server(&mut self, id: &str) -> (r: Option<Server>)
        requires
            old(self).wf(),
        ensures
            final(self).wf(),
            final(self)@ == old(self)@.drop_server(id@),
            match r {
                Some(server) => old(self)@.cache.servers.contains_key(id@) && server@
                    == old(self)@.cache.servers[id@],
                None => !old(self)@.cache.servers.contains_key(id@),
            },
    {
        self.cache.servers.remove(id)
    }

    /// Caches the viewer's membership of `server`.
    pub fn put_member(&mut self, server: String, member: Member)
        requires
            old(self).wf(),
        ensures
            final(self).wf(),
            final(self)@ == old(self)@.put_member(server@, member@),
    {
        self.cache.members.insert(server, member);
    }

    /// Forgets the viewer's membership of `server`.
    pub fn drop_member(&mut self, server: &str)
        requires
            old(self).wf(),
        ensures
            final(self).wf(),
            final(self)@ == old(self)@.drop_member(server@),
    {
        self.cache.members.remove(server);
    }

    /// Caches `user` under `id`.
    pub fn put_user(&mut self, id: String, user: User)
        requires
            old(self).wf(),
        ensures
            final(self).wf(),
            final(self)@ == old(self)@.put_user(id@, user@),
    {
        self.cache.users.insert(id, user);
    }
}

} // verus!
