//! Building the state and the payload of a connection that has just been
//! opened.
//!
//! The database, the presence service and the voice store are asked by
//! whoever serves the connection; what they answered comes in as plain
//! values.

use vstd::prelude::*;
use crate::cache::{accessible, CacheView};
use crate::channel::{Channel, ChannelView};
use crate::event::{Emoji, EmojiView, EventV1, EventView};
use crate::ids::{find_id, same_id, without, Id};
use crate::member::{Member, MemberView};
use crate::record::{duplicate_all, views, Record};
use crate::server::{Server, ServerView};
use crate::state::{State, StateView};
use crate::table::{filled, lemma_filled, Table};
use crate::user::{listed_status, RelationshipView, User, UserView};
use crate::voice::{ChannelVoiceState, ChannelVoiceStateView};

verus! {

/// `acc` with each of `more` that it lacks added at the end, in order.
pub open spec fn gathered(acc: Seq<Id>, more: Seq<Id>) -> Seq<Id>
    decreases more.len(),
{
    if more.len() == 0 {
        acc
    } else {
        let before = gathered(acc, more.drop_last());
        if before.contains(more.last()) {
            before
        } else {
            before.push(more.last())
        }
    }
}

/// `acc` with the recipients of each of `channels` gathered in, in order.
pub open spec fn with_recipients(acc: Seq<Id>, channels: Seq<ChannelView>) -> Seq<Id>
    decreases channels.len(),
{
    if channels.len() == 0 {
        acc
    } else {
        gathered(with_recipients(acc, channels.drop_last()), channels.last().recipients())
    }
}

/// The users named in a user's list of relations, in order.
pub open spec fn relation_ids(relations: Seq<RelationshipView>) -> Seq<Id> {
    Seq::new(relations.len(), |i: int| relations[i].id)
}

/// Everybody the viewer may follow, each once: the viewer, those in the
/// viewer's list of relations, and the recipients of `channels`.
pub open spec fn candidate_ids(viewer: UserView, channels: Seq<ChannelView>) -> Seq<Id> {
    with_recipients(gathered(seq![viewer.id], relation_ids(viewer.relations)), channels)
}

/// The identifiers of `channels`, in order.
pub open spec fn channel_ids(channels: Seq<ChannelView>) -> Seq<Id> {
    Seq::new(channels.len(), |i: int| channels[i].id())
}

/// The identifiers of `servers`, in order.
pub open spec fn server_ids(servers: Seq<ServerView>) -> Seq<Id> {
    Seq::new(servers.len(), |i: int| servers[i].id)
}

/// The servers that `members` are memberships of, in order.
pub open spec fn member_servers(members: Seq<MemberView>) -> Seq<Id> {
    Seq::new(members.len(), |i: int| members[i].id.server)
}

/// The identifiers of `users`, in order.
pub open spec fn user_ids(users: Seq<UserView>) -> Seq<Id> {
    Seq::new(users.len(), |i: int| users[i].id)
}

/// The channels that `servers` declare, one server after the other.
pub open spec fn declared_channels(servers: Seq<ServerView>) -> Seq<Id>
    decreases servers.len(),
{
    if servers.len() == 0 {
        Seq::empty()
    } else {
        declared_channels(servers.drop_last()) + servers.last().channels
    }
}

/// `users` as `viewer` is to see them, where `online` lists those who are
/// online.
pub open spec fn rendered(users: Seq<UserView>, viewer: UserView, online: Seq<Id>) -> Seq<UserView> {
    Seq::new(users.len(), |i: int| users[i].known_to(viewer, online.contains(users[i].id)))
}

/// Those of `states` that belong to a cached channel that can carry voice, in
/// order.
pub open spec fn attached(
    states: Seq<ChannelVoiceStateView>,
    channels: Map<Id, ChannelView>,
) -> Seq<ChannelVoiceStateView>
    decreases states.len(),
{
    if states.len() == 0 {
        Seq::empty()
    } else {
        let before = attached(states.drop_last(), channels);
        let id = states.last().id;
        if channels.contains_key(id) && channels[id].is_voice_capable() {
            before.push(states.last())
        } else {
            before
        }
    }
}

/// What the outside gave for a ready payload.
pub struct ReadyParts {
    /// The viewer's memberships.
    pub members: Vec<Member>,
    /// The servers of those memberships.
    pub servers: Vec<Server>,
    /// The viewer's direct messages and groups and the channels of those
    /// servers.
    pub channels: Vec<Channel>,
    /// For each of `channels`, whether the permission engine lets the viewer
    /// view it.
    pub granted: Vec<bool>,
    /// The records of the users that the viewer may follow.
    pub users: Vec<User>,
    /// Those users who are online.
    pub online: Vec<String>,
    /// The emoji of the servers.
    pub emojis: Vec<Emoji>,
    /// The voice states of the channels in which somebody is connected;
    /// those of channels that the viewer cannot view are left out of the
    /// payload.
    pub voice_states: Vec<ChannelVoiceState>,
}

/// What the parts of a ready payload stands for: the model that contracts speak of.
pub struct ReadyPartsView {
    pub members: Seq<MemberView>,
    pub servers: Seq<ServerView>,
    pub channels: Seq<ChannelView>,
    pub granted: Seq<bool>,
    pub users: Seq<UserView>,
    pub online: Seq<Id>,
    pub emojis: Seq<EmojiView>,
    pub voice_states: Seq<ChannelVoiceStateView>,
}

impl View for ReadyParts {
    type V = ReadyPartsView;

    open spec fn view(&self) -> ReadyPartsView {
        ReadyPartsView {
            members: views(self.members@),
            servers: views(self.servers@),
            channels: views(self.channels@),
            granted: self.granted@,
            users: views(self.users@),
            online: views(self.online@),
            emojis: views(self.emojis@),
            voice_states: views(self.voice_states@),
        }
    }
}

/// The cache after the snapshot: the memberships, the servers, those of the
/// channels that the viewer can view and the users as the viewer is to see
/// them, the viewer's own record among them; the memory of seen events stays.
pub open spec fn ready_cache(cache: CacheView, parts: ReadyPartsView) -> CacheView {
    let viewer = cache.users[cache.user_id];
    let channels = accessible(parts.channels, parts.granted);
    let others = rendered(parts.users, viewer, parts.online);
    let users = filled(
        user_ids(others).push(cache.user_id),
        others.push(viewer.known_to_self()),
    );
    let members = filled(member_servers(parts.members), parts.members);
    let servers = filled(server_ids(parts.servers), parts.servers);
    let kept = filled(channel_ids(channels), channels);
    CacheView {
        user_id: cache.user_id,
        users: users.1,
        channels: kept.1,
        channel_order: kept.0,
        members: members.1,
        servers: servers.1,
        server_order: servers.0,
        seen: cache.seen,
        capacity: cache.capacity,
    }
}

/// The ready payload: the users as the viewer is to see them, the viewer
/// last; the servers, the channels that the viewer can view, the memberships,
/// the emoji, and the voice states of the cached channels that can carry
/// voice.
pub open spec fn ready_event(cache: CacheView, parts: ReadyPartsView) -> EventView {
    let viewer = cache.users[cache.user_id];
    EventView::Ready {
        users: rendered(parts.users, viewer, parts.online).push(viewer.known_to_self()),
        servers: parts.servers,
        channels: accessible(parts.channels, parts.granted),
        members: parts.members,
        emojis: parts.emojis,
        voice_states: attached(parts.voice_states, ready_cache(cache, parts).channels),
    }
}

/// What `gathered` holds: what `acc` held and what `more` holds; nothing
/// twice where `acc` held nothing twice.
pub proof fn lemma_gathered(acc: Seq<Id>, more: Seq<Id>)
    ensures
        forall|x: Id| gathered(acc, more).contains(x) <==> (acc.contains(x) || more.contains(x)),
        acc.no_duplicates() ==> gathered(acc, more).no_duplicates(),
    decreases more.len(),
{
    if more.len() > 0 {
        let rest = more.drop_last();
        lemma_gathered(acc, rest);
        let before = gathered(acc, rest);
        let all = gathered(acc, more);
        assert forall|x: Id| all.contains(x) <==> (acc.contains(x) || more.contains(x)) by {
            if more.contains(x) {
                let j = choose|j: int| 0 <= j < more.len() && more[j] == x;
                if j < rest.len() {
                    assert(rest[j] == x);
                    assert(rest.contains(x));
                }
            }
            if rest.contains(x) {
                let j = choose|j: int| 0 <= j < rest.len() && rest[j] == x;
                assert(more[j] == x);
            }
            if before.contains(x) && !before.contains(more.last()) {
                let j = choose|j: int| 0 <= j < before.len() && before[j] == x;
                assert(all[j] == x);
            }
            if x == more.last() {
                assert(more[more.len() - 1] == x);
                if !before.contains(x) {
                    assert(all[before.len() as int] == x);
                }
            }
            if all.contains(x) && !before.contains(more.last()) {
                let j = choose|j: int| 0 <= j < all.len() && all[j] == x;
                if j < before.len() {
                    assert(before[j] == x);
                }
            }
        }
    }
}

/// What `with_recipients` holds at least: what `acc` held and every recipient
/// of every one of `channels`.
pub proof fn lemma_with_recipients(acc: Seq<Id>, channels: Seq<ChannelView>)
    ensures
        forall|x: Id| #[trigger] acc.contains(x) ==> with_recipients(acc, channels).contains(x),
        forall|i: int, x: Id|
            0 <= i < channels.len() && #[trigger] channels[i].recipients().contains(x)
                ==> with_recipients(acc, channels).contains(x),
        acc.no_duplicates() ==> with_recipients(acc, channels).no_duplicates(),
    decreases channels.len(),
{
    if channels.len() > 0 {
        let rest = channels.drop_last();
        lemma_with_recipients(acc, rest);
        lemma_gathered(with_recipients(acc, rest), channels.last().recipients());
        assert forall|i: int, x: Id|
            0 <= i < channels.len() && #[trigger] channels[i].recipients().contains(
                x,
            ) implies with_recipients(acc, channels).contains(x) by {
            if i < rest.len() {
                assert(rest[i].recipients().contains(x));
            }
        }
    }
}

/// A status other than `Unrelated` comes from an entry of the list.
pub proof fn lemma_listed(relations: Seq<RelationshipView>, other: Id)
    requires
        listed_status(relations, other).spec_follows(),
    ensures
        relation_ids(relations).contains(other),
    decreases relations.len(),
{
    if relations.len() > 0 {
        if relations[0].id == other {
            assert(relation_ids(relations)[0] == other);
        } else {
            lemma_listed(relations.drop_first(), other);
            let rest = relation_ids(relations.drop_first());
            let j = choose|j: int| 0 <= j < rest.len() && rest[j] == other;
            assert(relation_ids(relations)[j + 1] == other);
        }
    }
}

/// What one more element adds to the front part of a list.
pub proof fn lemma_take_next(s: Seq<Id>, i: int, t: Id)
    requires
        0 <= i < s.len(),
    ensures
        s.take(i + 1).contains(t) <==> (s.take(i).contains(t) || t == s[i]),
{
    if s.take(i).contains(t) {
        let j = choose|j: int| 0 <= j < i && s.take(i)[j] == t;
        assert(s.take(i + 1)[j] == t);
    }
    if t == s[i] {
        assert(s.take(i + 1)[i] == t);
    }
    if s.take(i + 1).contains(t) {
        let next = s.take(i + 1);
        let j = choose|j: int| 0 <= j < next.len() && next[j] == t;
        if j < i {
            assert(s.take(i)[j] == t);
        }
    }
}

/// Adds to `acc` each of `more` that it lacks.
pub fn gather(acc: &mut Vec<String>, more: &Vec<String>)
    ensures
        views(final(acc)@) == gathered(views(old(acc)@), views(more@)),
{
    let ghost start = views(acc@);
    let mut i: usize = 0;
    assert(views(more@).take(0) =~= Seq::<Id>::empty());
    while i < more.len()
        invariant
            i <= more.len(),
            views(acc@) == gathered(start, views(more@).take(i as int)),
        decreases more.len() - i,
    {
        let ghost before = acc@;
        proof {
            let all = views(more@);
            assert(all.take(i + 1).drop_last() =~= all.take(i as int));
            assert(all.take(i + 1).last() == more[i as int]@);
        }
        if find_id(acc, more[i].as_str()).is_none() {
            acc.push(more[i].clone());
            assert(views(acc@) =~= views(before).push(more[i as int]@));
        }
        i += 1;
    }
    assert(views(more@).take(more.len() as int) =~= views(more@));
}

/// Everybody `viewer` may follow, given the channels they can view.
pub fn candidates(viewer: &User, channels: &Vec<Channel>) -> (r: Vec<String>)
    ensures
        views(r@) == candidate_ids(viewer@, views(channels@)),
{
    let mut ids: Vec<String> = Vec::new();
    ids.push(viewer.id.clone());
    assert(views(ids@) =~= seq![viewer@.id]);
    let mut related: Vec<String> = Vec::new();
    let mut i: usize = 0;
    while i < viewer.relations.len()
        invariant
            i <= viewer.relations.len(),
            views(related@) == relation_ids(viewer@.relations).take(i as int),
        decreases viewer.relations.len() - i,
    {
        let ghost before = related@;
        related.push(viewer.relations[i].id.clone());
        proof {
            assert(viewer@.relations[i as int] == viewer.relations[i as int]@);
            assert(views(related@) =~= views(before).push(viewer.relations[i as int].id@));
            assert(views(related@) =~= relation_ids(viewer@.relations).take(i + 1));
        }
        i += 1;
    }
    assert(relation_ids(viewer@.relations).take(viewer.relations.len() as int) =~= relation_ids(
        viewer@.relations,
    ));
    gather(&mut ids, &related);
    let ghost base = views(ids@);
    let mut j: usize = 0;
    assert(views(channels@).take(0) =~= Seq::<ChannelView>::empty());
    while j < channels.len()
        invariant
            j <= channels.len(),
            views(ids@) == with_recipients(base, views(channels@).take(j as int)),
        decreases channels.len() - j,
    {
        proof {
            let all = views(channels@);
            assert(all.take(j + 1).drop_last() =~= all.take(j as int));
            assert(all.take(j + 1).last() == channels[j as int]@);
        }
        match channels[j].recipients() {
            Some(list) => {
                gather(&mut ids, list);
            },
            None => {},
        }
        j += 1;
    }
    assert(views(channels@).take(channels.len() as int) =~= views(channels@));
    ids
}

/// The identifiers of `channels`, in order.
pub fn ids_of_channels(channels: &Vec<Channel>) -> (r: Vec<String>)
    ensures
        r.len() == channels.len(),
        views(r@) == channel_ids(views(channels@)),
{
    let mut r: Vec<String> = Vec::new();
    let mut i: usize = 0;
    while i < channels.len()
        invariant
            i <= channels.len(),
            r.len() == i,
            forall|j: int| 0 <= j < i ==> r[j]@ == channels[j]@.id(),
        decreases channels.len() - i,
    {
        r.push(channels[i].id().to_owned());
        i += 1;
    }
    assert(views(r@) =~= channel_ids(views(channels@)));
    r
}

/// The identifiers of `servers`, in order.
pub fn ids_of_servers(servers: &Vec<Server>) -> (r: Vec<String>)
    ensures
        r.len() == servers.len(),
        views(r@) == server_ids(views(servers@)),
{
    let mut r: Vec<String> = Vec::new();
    let mut i: usize = 0;
    while i < servers.len()
        invariant
            i <= servers.len(),
            r.len() == i,
            forall|j: int| 0 <= j < i ==> r[j]@ == servers[j]@.id,
        decreases servers.len() - i,
    {
        r.push(servers[i].id.clone());
        i += 1;
    }
    assert(views(r@) =~= server_ids(views(servers@)));
    r
}

/// The identifiers of `users`, in order.
pub fn ids_of_users(users: &Vec<User>) -> (r: Vec<String>)
    ensures
        r.len() == users.len(),
        views(r@) == user_ids(views(users@)),
{
    let mut r: Vec<String> = Vec::new();
    let mut i: usize = 0;
    while i < users.len()
        invariant
            i <= users.len(),
            r.len() == i,
            forall|j: int| 0 <= j < i ==> r[j]@ == users[j]@.id,
        decreases users.len() - i,
    {
        r.push(users[i].id.clone());
        i += 1;
    }
    assert(views(r@) =~= user_ids(views(users@)));
    r
}

/// The servers that `members` are memberships of, in order.
pub fn servers_of_members(members: &Vec<Member>) -> (r: Vec<String>)
    ensures
        r.len() == members.len(),
        views(r@) == member_servers(views(members@)),
{
    let mut r: Vec<String> = Vec::new();
    let mut i: usize = 0;
    while i < members.len()
        invariant
            i <= members.len(),
            r.len() == i,
            forall|j: int| 0 <= j < i ==> r[j]@ == members[j]@.id.server,
        decreases members.len() - i,
    {
        r.push(members[i].id.server.clone());
        i += 1;
    }
    assert(views(r@) =~= member_servers(views(members@)));
    r
}

/// The channels that `servers` declare, one server after the other.
pub fn channels_of_servers(servers: &Vec<Server>) -> (r: Vec<String>)
    ensures
        views(r@) == declared_channels(views(servers@)),
{
    let mut r: Vec<String> = Vec::new();
    let mut i: usize = 0;
    assert(views(servers@).take(0) =~= Seq::<ServerView>::empty());
    assert(views(r@) =~= Seq::<Id>::empty());
    while i < servers.len()
        invariant
            i <= servers.len(),
            views(r@) == declared_channels(views(servers@).take(i as int)),
        decreases servers.len() - i,
    {
        let ghost before = r@;
        proof {
            let all = views(servers@);
            assert(all.take(i + 1).drop_last() =~= all.take(i as int));
            assert(all.take(i + 1).last() == servers[i as int]@);
        }
        let mut more = duplicate_all(&servers[i].channels);
        let ghost added = more@;
        r.append(&mut more);
        assert(views(r@) =~= views(before) + views(added));
        i += 1;
    }
    assert(views(servers@).take(servers.len() as int) =~= views(servers@));
    r
}

impl State {
    /// Puts the viewer's memberships into the cache, in place of those that
    /// were there, and says which servers to fetch.
    pub fn stage_memberships(&mut self, members: &Vec<Member>) -> (r: Vec<String>)
        requires
            old(self).wf(),
        ensures
            final(self).wf(),
            views(r@) == member_servers(views(members@)),
            final(self)@ == (StateView {
                cache: CacheView {
                    members: filled(member_servers(views(members@)), views(members@)).1,
                    ..old(self)@.cache
                },
                ..old(self)@
            }),
    {
        let ids = servers_of_members(members);
        self.cache.members = Table::from_lists(&ids, members);
        ids
    }

    /// Puts the servers into the cache, in place of those that were there,
    /// and says which channels to fetch: those that the servers declare.
    pub fn stage_servers(&mut self, servers: &Vec<Server>) -> (r: Vec<String>)
        requires
            old(self).wf(),
        ensures
            final(self).wf(),
            views(r@) == declared_channels(views(servers@)),
            final(self)@ == (StateView {
                cache: CacheView {
                    servers: filled(server_ids(views(servers@)), views(servers@)).1,
                    server_order: filled(server_ids(views(servers@)), views(servers@)).0,
                    ..old(self)@.cache
                },
                ..old(self)@
            }),
    {
        let ids = ids_of_servers(servers);
        self.cache.servers = Table::from_lists(&ids, servers);
        channels_of_servers(servers)
    }

    /// The users whose records and presence to fetch: everybody the viewer
    /// may follow, given the channels fetched and the permission engine's
    /// answers for them, but for the viewer.
    pub fn ready_users(&self, channels: &Vec<Channel>, granted: &Vec<bool>) -> (r: Vec<String>)
        requires
            self.wf(),
        ensures
            views(r@) == without(
                candidate_ids(
                    self@.cache.users[self@.cache.user_id],
                    accessible(views(channels@), granted@),
                ),
                self@.cache.users[self@.cache.user_id].id,
            ),
    {
        let viewer = self.clone_user();
        let viewable = self.cache.filter_accessible_channels(duplicate_all(channels), granted);
        let all = candidates(&viewer, &viewable);
        let mut r: Vec<String> = Vec::new();
        let mut i: usize = 0;
        assert(views(all@).take(0) =~= Seq::<Id>::empty());
        while i < all.len()
            invariant
                i <= all.len(),
                views(r@) == without(views(all@).take(i as int), viewer@.id),
            decreases all.len() - i,
        {
            let ghost before = r@;
            proof {
                let ids = views(all@);
                assert(ids.take(i + 1).drop_last() =~= ids.take(i as int));
                assert(ids.take(i + 1).last() == all[i as int]@);
            }
            if !same_id(all[i].as_str(), viewer.id.as_str()) {
                r.push(all[i].clone());
                assert(views(r@) =~= views(before).push(all[i as int]@));
            }
            i += 1;
        }
        assert(views(all@).take(all.len() as int) =~= views(all@));
        r
    }

    /// Forgets every subscription and subscribes to what follows from the
    /// cache: the private topic, the viewer, everybody the viewer follows,
    /// every cached server and every cached channel.
    pub fn resubscribe(&mut self)
        requires
            old(self).wf(),
        ensures
            final(self).wf(),
            final(self)@.cache == old(self)@.cache,
            final(self)@.private_topic == old(self)@.private_topic,
            final(self)@.in_step(),
    {
        let viewer = self.clone_user();
        let cached = self.cache.channels.values();
        let everybody = candidates(&viewer, &cached);
        proof {
            let cache = self@.cache;
            let all = views(cached@);
            let base = gathered(seq![viewer@.id], relation_ids(viewer@.relations));
            self.cache.channels.lemma_keys();
            lemma_with_recipients(base, all);
            lemma_gathered(seq![viewer@.id], relation_ids(viewer@.relations));
            assert forall|t: Id| #[trigger] cache.can_subscribe_to_user(t) implies views(
                everybody@,
            ).contains(t) by {
                if viewer@.relationship_with(t).spec_follows() {
                    if t == viewer@.id {
                        assert(seq![viewer@.id][0] == t);
                        assert(seq![viewer@.id].contains(t));
                    } else {
                        lemma_listed(viewer@.relations, t);
                    }
                    assert(base.contains(t));
                    assert(with_recipients(base, all).contains(t));
                } else {
                    assert(cache.shares_channel(t));
                    let c = choose|c: Id| #[trigger]
                        cache.channels.contains_key(c) && cache.channels[c].recipients().contains(t);
                    let order = self.cache.channels.order();
                    assert(order.contains(c));
                    let n = order.index_of(c);
                    assert(order[n] == c);
                    assert(all[n] == cached[n]@);
                    assert(all[n].recipients().contains(t));
                    assert(with_recipients(base, all).contains(t));
                }
            }
        }
        self.subscribe_anew(&everybody);
    }

    /// Forgets every subscription and subscribes to the private topic, the
    /// viewer, each of `candidates` that the viewer follows, every cached
    /// server and every cached channel.
    fn subscribe_anew(&mut self, candidates: &Vec<String>)
        requires
            old(self).wf(),
            forall|t: Id| #[trigger]
                old(self)@.cache.can_subscribe_to_user(t) ==> views(candidates@).contains(t),
        ensures
            final(self).wf(),
            final(self)@.cache == old(self)@.cache,
            final(self)@.private_topic == old(self)@.private_topic,
            final(self)@.in_step(),
    {
        let ghost start = self@;
        let ghost users = views(candidates@);
        let ghost servers = start.cache.server_order;
        let ghost channels = start.cache.channel_order;
        self.reset_state();
        self.insert_subscription(self.private_topic.clone());
        self.insert_subscription(self.cache.user_id.clone());
        let mut i: usize = 0;
        while i < candidates.len()
            invariant
                i <= candidates.len(),
                users == views(candidates@),
                self.wf(),
                self@.cache == start.cache,
                self@.private_topic == start.private_topic,
                forall|t: Id| #[trigger]
                    self@.subscribed.contains(t) <==> (t == start.private_topic || t
                        == start.cache.user_id || (start.cache.can_subscribe_to_user(t)
                        && users.take(i as int).contains(t))),
            decreases candidates.len() - i,
        {
            let ghost prev = self@.subscribed;
            if self.cache.can_subscribe_to_user(candidates[i].as_str()) {
                self.insert_subscription(candidates[i].clone());
            }
            proof {
                assert(users[i as int] == candidates[i as int]@);
                assert forall|t: Id| #[trigger]
                    self@.subscribed.contains(t) <==> (t == start.private_topic || t
                        == start.cache.user_id || (start.cache.can_subscribe_to_user(t)
                        && users.take(i + 1).contains(t))) by {
                    lemma_take_next(users, i as int, t);
                    assert(prev.contains(t) <==> (t == start.private_topic || t
                        == start.cache.user_id || (start.cache.can_subscribe_to_user(t)
                        && users.take(i as int).contains(t))));
                }
            }
            i += 1;
        }
        assert(users.take(candidates.len() as int) =~= users);
        let mut j: usize = 0;
        while j < self.cache.servers.len()
            invariant
                j <= servers.len(),
                servers == self.cache.servers.order(),
                self.wf(),
                self@.cache == start.cache,
                self@.private_topic == start.private_topic,
                forall|t: Id| #[trigger]
                    self@.subscribed.contains(t) <==> (t == start.private_topic || t
                        == start.cache.user_id || start.cache.can_subscribe_to_user(t)
                        || servers.take(j as int).contains(t)),
            decreases servers.len() - j,
        {
            let ghost prev = self@.subscribed;
            let key = self.cache.servers.key_at(j).clone();
            self.insert_subscription(key);
            proof {
                assert forall|t: Id| #[trigger]
                    self@.subscribed.contains(t) <==> (t == start.private_topic || t
                        == start.cache.user_id || start.cache.can_subscribe_to_user(t)
                        || servers.take(j + 1).contains(t)) by {
                    lemma_take_next(servers, j as int, t);
                    assert(prev.contains(t) <==> (t == start.private_topic || t
                        == start.cache.user_id || start.cache.can_subscribe_to_user(t)
                        || servers.take(j as int).contains(t)));
                }
            }
            j += 1;
        }
        assert(servers.take(servers.len() as int) =~= servers);
        let mut k: usize = 0;
        while k < self.cache.channels.len()
            invariant
                k <= channels.len(),
                channels == self.cache.channels.order(),
                self.wf(),
                self@.cache == start.cache,
                self@.private_topic == start.private_topic,
                forall|t: Id| #[trigger]
                    self@.subscribed.contains(t) <==> (t == start.private_topic || t
                        == start.cache.user_id || start.cache.can_subscribe_to_user(t)
                        || servers.contains(t) || channels.take(k as int).contains(t)),
            decreases channels.len() - k,
        {
            let ghost prev = self@.subscribed;
            let key = self.cache.channels.key_at(k).clone();
            self.insert_subscription(key);
            proof {
                assert forall|t: Id| #[trigger]
                    self@.subscribed.contains(t) <==> (t == start.private_topic || t
                        == start.cache.user_id || start.cache.can_subscribe_to_user(t)
                        || servers.contains(t) || channels.take(k + 1).contains(t)) by {
                    lemma_take_next(channels, k as int, t);
                    assert(prev.contains(t) <==> (t == start.private_topic || t
                        == start.cache.user_id || start.cache.can_subscribe_to_user(t)
                        || servers.contains(t) || channels.take(k as int).contains(t)));
                }
            }
            k += 1;
        }
        proof {
            assert(channels.take(channels.len() as int) =~= channels);
            self.cache.channels.lemma_keys();
            self.cache.servers.lemma_keys();
            assert forall|t: Id| self@.subscribed.contains(t) <==> self@.derived_topics().contains(
                t,
            ) by {
                assert(self@.subscribed.contains(t) <==> (t == start.private_topic || t
                    == start.cache.user_id || start.cache.can_subscribe_to_user(t)
                    || servers.contains(t) || channels.contains(t)));
            }
            assert(self@.subscribed =~= self@.derived_topics());
        }
    }

    /// Those of `states` that belong to a cached channel that can carry
    /// voice.
    pub fn attach_voice_states(&self, states: &Vec<ChannelVoiceState>) -> (r: Vec<
        ChannelVoiceState,
    >)
        requires
            self.wf(),
        ensures
            views(r@) == attached(views(states@), self@.cache.channels),
    {
        let mut kept: Vec<ChannelVoiceState> = Vec::new();
        let mut i: usize = 0;
        assert(views(states@).take(0) =~= Seq::<ChannelVoiceStateView>::empty());
        assert(views(kept@) =~= Seq::<ChannelVoiceStateView>::empty());
        while i < states.len()
            invariant
                i <= states.len(),
                self.wf(),
                views(kept@) == attached(views(states@).take(i as int), self@.cache.channels),
            decreases states.len() - i,
        {
            let ghost before = kept@;
            proof {
                let all = views(states@);
                assert(all.take(i + 1).drop_last() =~= all.take(i as int));
                assert(all.take(i + 1).last() == states[i as int]@);
            }
            let carries = match self.cache.channels.get(states[i].id.as_str()) {
                Some(channel) => channel.is_voice_capable(),
                None => false,
            };
            if carries {
                kept.push(states[i].duplicate());
                assert(views(kept@) =~= views(before).push(states[i as int]@));
            }
            i += 1;
        }
        assert(views(states@).take(states.len() as int) =~= views(states@));
        kept
    }

    /// Builds the state of a connection that has just been opened from what
    /// the outside gave, and the ready payload for its client.
    ///
    /// The cache holds the memberships, the servers, the channels that the
    /// viewer can view and the users as the viewer is to see them. The
    /// subscriptions are exactly the topics that follow from that cache.
    pub fn generate_ready_payload(&mut self, parts: ReadyParts) -> (r: EventV1)
        requires
            old(self).wf(),
        ensures
            final(self).wf(),
            final(self)@.cache == ready_cache(old(self)@.cache, parts@),
            final(self)@.private_topic == old(self)@.private_topic,
            final(self)@.in_step(),
            r@ == ready_event(old(self)@.cache, parts@),
    {
        let ghost before = self@.cache;
        let viewer = self.clone_user();
        let channels = self.cache.filter_accessible_channels(parts.channels, &parts.granted);
        let mut users: Vec<User> = Vec::new();
        let mut i: usize = 0;
        while i < parts.users.len()
            invariant
                i <= parts.users.len(),
                users.len() == i,
                forall|j: int|
                    0 <= j < i ==> users[j]@ == rendered(
                        views(parts.users@),
                        viewer@,
                        views(parts.online@),
                    )[j],
            decreases parts.users.len() - i,
        {
            let other = &parts.users[i];
            let is_online = find_id(&parts.online, other.id.as_str()).is_some();
            users.push(other.into_known(&viewer, is_online));
            i += 1;
        }
        let ghost others = rendered(views(parts.users@), viewer@, views(parts.online@));
        assert(views(users@) =~= others);
        let mut user_keys = ids_of_users(&users);
        user_keys.push(self.cache.user_id.clone());
        users.push(viewer.into_self());
        proof {
            assert(views(user_keys@) =~= user_ids(others).push(before.user_id));
            assert(views(users@) =~= others.push(viewer@.known_to_self()));
            lemma_filled(views(user_keys@), views(users@));
            assert(views(user_keys@)[user_keys.len() - 1] == before.user_id);
        }
        let member_keys = servers_of_members(&parts.members);
        let server_keys = ids_of_servers(&parts.servers);
        let channel_keys = ids_of_channels(&channels);
        self.cache.users = Table::from_lists(&user_keys, &users);
        self.cache.members = Table::from_lists(&member_keys, &parts.members);
        self.cache.servers = Table::from_lists(&server_keys, &parts.servers);
        self.cache.channels = Table::from_lists(&channel_keys, &channels);
        self.resubscribe();
        let voice_states = self.attach_voice_states(&parts.voice_states);
        EventV1::Ready {
            users,
            servers: parts.servers,
            channels,
            members: parts.members,
            emojis: parts.emojis,
            voice_states,
        }
    }
}

} // verus!
