//! What holds of the state machine, whatever the events and the replies.

use vstd::prelude::*;
use crate::cache::visible;
use crate::channel::{ChannelView, FieldsChannel, PartialChannelView};
use crate::event::EventView;
use crate::event::EmojiView;
use crate::ids::{lemma_without_contains, without, Id};
use crate::member::MemberView;
use crate::server::ServerView;
use crate::recent::remembered;
use crate::rules::{
    begin, created_events, deleted_events, forget_channels, known_ids, leave_server, put_channels,
    recalculate, recalculated, resume, settle_known, take_in, unknown_ids,
};
use crate::state::StateView;
use crate::step::{PendingView, ProgressView, ReplyView, RequestView};
use crate::user::{FieldsUser, PartialUserView};
use crate::voice::{connected, dangling, reported, UserVoiceStateView, VoiceLookupView};

verus! {

/// What was recorded last is remembered.
pub proof fn lemma_remembered_holds(order: Seq<Id>, capacity: nat, id: Id)
    requires
        capacity >= 1,
    ensures
        remembered(order, capacity, id).contains(id),
{
    let r = remembered(order, capacity, id);
    lemma_without_contains(order, id);
    assert(r[r.len() - 1] == id);
}

/// A user update that carries an event identifier is handled once: when it
/// comes a second time it is not forwarded and changes nothing. The first
/// time it is forwarded, without its identifier, unless the identifier was
/// seen before; and the identifier is then recorded, which is all that
/// changes.
pub proof fn law_user_update_handled_once(
    s: StateView,
    id: Id,
    data: PartialUserView,
    clear: Seq<FieldsUser>,
    event_id: Id,
)
    requires
        s.cache.wf(),
    ensures
        ({
            let e = EventView::UserUpdate { id, data, clear, event_id: Some(event_id) };
            let (s1, first) = begin(s, e);
            let (s2, second) = begin(s1, e);
            &&& second == (ProgressView::Done { forward: false, event: e })
            &&& s2 == s1
            &&& if s.cache.seen.contains(event_id) {
                first == second && s1 == s
            } else {
                &&& first == (ProgressView::Done {
                    forward: true,
                    event: EventView::UserUpdate { id, data, clear, event_id: None },
                })
                &&& s1 == s.remember(event_id)
            }
        }),
{
    lemma_remembered_holds(s.cache.seen, s.cache.capacity, event_id);
}

/// An update of a cached channel of a server is forwarded as what it means
/// to the viewer. Where the viewer could view the channel and can no longer,
/// a deletion is forwarded and the channel's topic is unsubscribed from;
/// where the viewer could not and now can, a creation with the channel as it
/// is now is forwarded and the topic is subscribed to; else the update itself
/// is forwarded and the subscriptions stay.
pub proof fn law_visibility_flip(
    s: StateView,
    id: Id,
    data: PartialChannelView,
    clear: Seq<FieldsChannel>,
    could: bool,
    can: bool,
)
    requires
        s.cache.channels.contains_key(id),
        s.cache.channels[id].server() is Some,
    ensures
        ({
            let e = EventView::ChannelUpdate { id, data, clear };
            let now = s.cache.channels[id].updated(data, clear);
            let (s1, first) = begin(s, e);
            let (s2, second) = resume(s1, first->pending, ReplyView::Permissions(seq![could]));
            let (s3, third) = resume(s2, second->pending, ReplyView::Permissions(seq![can]));
            &&& first is Ask && first->request == RequestView::Permissions(
                seq![s.cache.channels[id]],
            )
            &&& second is Ask && second->request == RequestView::Permissions(seq![now])
            &&& s3.cache.channels == s.cache.channels.insert(id, now)
            &&& if could && !can {
                &&& third == (ProgressView::Done {
                    forward: true,
                    event: EventView::ChannelDelete { id },
                })
                &&& s3.subscribed == s.subscribed.remove(id)
            } else if !could && can {
                &&& third == (ProgressView::Done {
                    forward: true,
                    event: EventView::ChannelCreate(now),
                })
                &&& s3.subscribed == s.subscribed.insert(id)
            } else {
                &&& third == (ProgressView::Done { forward: true, event: e })
                &&& s3.subscribed == s.subscribed
            }
        }),
{
}

/// What forgetting channels leaves: the subscriptions and the cached
/// channels but for those forgotten, and everything else as it was.
pub proof fn lemma_forget_channels(s: StateView, ids: Seq<Id>)
    ensures
        forget_channels(s, ids).subscribed == s.subscribed.difference(ids.to_set()),
        forget_channels(s, ids).cache.channels == s.cache.channels.remove_keys(ids.to_set()),
        forget_channels(s, ids).cache.servers == s.cache.servers,
        forget_channels(s, ids).cache.server_order == s.cache.server_order,
        forget_channels(s, ids).cache.members == s.cache.members,
        forget_channels(s, ids).cache.users == s.cache.users,
        forget_channels(s, ids).cache.user_id == s.cache.user_id,
        forget_channels(s, ids).private_topic == s.private_topic,
    decreases ids.len(),
{
    if ids.len() == 0 {
        assert(ids.to_set() =~= Set::<Id>::empty());
        assert(s.subscribed.difference(ids.to_set()) =~= s.subscribed);
        assert(s.cache.channels.remove_keys(ids.to_set()) =~= s.cache.channels);
    } else {
        let rest = ids.drop_last();
        lemma_forget_channels(s, rest);
        assert(ids.to_set() =~= rest.to_set().insert(ids.last())) by {
            assert forall|x: Id| ids.to_set().contains(x) <==> rest.to_set().insert(
                ids.last(),
            ).contains(x) by {
                if ids.contains(x) {
                    let j = choose|j: int| 0 <= j < ids.len() && ids[j] == x;
                    if j < rest.len() {
                        assert(rest[j] == x);
                    }
                }
                if rest.contains(x) {
                    let j = choose|j: int| 0 <= j < rest.len() && rest[j] == x;
                    assert(ids[j] == x);
                }
                if x == ids.last() {
                    assert(ids[ids.len() - 1] == x);
                }
            }
        }
        assert(forget_channels(s, ids).subscribed =~= s.subscribed.difference(ids.to_set()));
        assert(forget_channels(s, ids).cache.channels =~= s.cache.channels.remove_keys(
            ids.to_set(),
        ));
    }
}

/// When the viewer leaves a cached server, or the server is deleted, exactly
/// this goes: the subscriptions to the server and to the channels it
/// declares, those channels from the cache, the server and the viewer's
/// membership of it. Nothing of them is left behind, and nothing else is
/// touched.
pub proof fn law_leaving_server(s: StateView, id: Id)
    requires
        s.cache.servers.contains_key(id),
    ensures
        ({
            let declared = s.cache.servers[id].channels.to_set();
            let leave = EventView::ServerMemberLeave { id, user: s.cache.user_id };
            let delete = EventView::ServerDelete { id };
            let (s1, progress) = begin(s, leave);
            &&& begin(s, delete) == (s1, ProgressView::Done { forward: true, event: delete })
            &&& progress == (ProgressView::Done { forward: true, event: leave })
            &&& s1.subscribed == s.subscribed.difference(declared.insert(id))
            &&& s1.cache.channels == s.cache.channels.remove_keys(declared)
            &&& s1.cache.servers == s.cache.servers.remove(id)
            &&& s1.cache.members == s.cache.members.remove(id)
            &&& s1.cache.users == s.cache.users
            &&& forall|c: Id|
                declared.contains(c) ==> !s1.subscribed.contains(c)
                    && !s1.cache.channels.contains_key(c)
        }),
{
    let declared = s.cache.servers[id].channels;
    lemma_forget_channels(s.unsubscribe(id), declared);
    let s1 = leave_server(s, id);
    assert(s1.subscribed =~= s.subscribed.difference(declared.to_set().insert(id)));
}

/// What the answers about the cached channels of a server leave where the
/// viewer may still view every one of them: nothing is deleted, and each is
/// subscribed to.
pub proof fn lemma_settle_all_granted(s: StateView, known: Seq<Id>, granted: Seq<bool>)
    requires
        granted.len() == known.len(),
        forall|i: int| 0 <= i < granted.len() ==> granted[i],
    ensures
        settle_known(s, known, granted).cache == s.cache,
        settle_known(s, known, granted).private_topic == s.private_topic,
        settle_known(s, known, granted).subscribed == s.subscribed.union(known.to_set()),
        deleted_events(known, granted) == Seq::<EventView>::empty(),
    decreases known.len(),
{
    if known.len() == 0 {
        assert(known.to_set() =~= Set::<Id>::empty());
        assert(s.subscribed.union(known.to_set()) =~= s.subscribed);
    } else {
        let rest = known.drop_last();
        lemma_settle_all_granted(s, rest, granted.drop_last());
        assert(granted.last());
        assert(known.to_set() =~= rest.to_set().insert(known.last())) by {
            assert forall|x: Id| known.to_set().contains(x) <==> rest.to_set().insert(
                known.last(),
            ).contains(x) by {
                if known.contains(x) {
                    let j = choose|j: int| 0 <= j < known.len() && known[j] == x;
                    if j < rest.len() {
                        assert(rest[j] == x);
                    }
                }
                if rest.contains(x) {
                    let j = choose|j: int| 0 <= j < rest.len() && rest[j] == x;
                    assert(known[j] == x);
                }
                if x == known.last() {
                    assert(known[known.len() - 1] == x);
                }
            }
        }
        assert(settle_known(s, known, granted).subscribed =~= s.subscribed.union(known.to_set()));
    }
}

/// A recalculation finds what the viewer has gained. Where the viewer may
/// still view every cached channel of the server, the server declares one
/// channel that the cache lacks, and that channel is fetched and can be
/// viewed, the recalculation caches that one channel, subscribes to its
/// topic, and forwards one creation, for that channel, before the event.
pub proof fn law_recalculation_finds_gained_channel(
    s: StateView,
    id: Id,
    event: EventView,
    granted: Seq<bool>,
    channel: ChannelView,
    allowed: bool,
)
    requires
        s.cache.servers.contains_key(id),
        granted.len() == known_ids(s.cache.channel_order, s.cache.channels, id).len(),
        forall|i: int| 0 <= i < granted.len() ==> granted[i],
        unknown_ids(
            s.cache.servers[id].channels,
            known_ids(s.cache.channel_order, s.cache.channels, id),
        ) == seq![channel.id()],
        visible(channel, allowed),
    ensures
        ({
            let known = known_ids(s.cache.channel_order, s.cache.channels, id);
            let (s1, first) = recalculate(s, id, event);
            let (s2, second) = resume(s1, first->pending, ReplyView::Permissions(granted));
            let (s3, third) = resume(
                s2,
                second->pending,
                ReplyView::Channels(Some(seq![channel])),
            );
            let (s4, fourth) = resume(s3, third->pending, ReplyView::Permissions(seq![allowed]));
            &&& first is Ask
            &&& second is Ask && second->request == RequestView::FetchChannels(seq![channel.id()])
            &&& third is Ask && third->request == RequestView::Permissions(seq![channel])
            &&& fourth == (ProgressView::Done {
                forward: true,
                event: EventView::Bulk { v: seq![EventView::ChannelCreate(channel), event] },
            })
            &&& s4.cache.channels == s.cache.channels.insert(channel.id(), channel)
            &&& s4.subscribed == s.subscribed.union(known.to_set()).insert(channel.id())
            &&& known.to_set().subset_of(s.subscribed) ==> s4.subscribed == s.subscribed.insert(
                channel.id(),
            )
        }),
{
    let known = known_ids(s.cache.channel_order, s.cache.channels, id);
    lemma_settle_all_granted(s, known, granted);
    let s2 = settle_known(s, known, granted);
    let one = seq![channel];
    let yes = seq![allowed];
    reveal_with_fuel(take_in, 2);
    reveal_with_fuel(created_events, 2);
    assert(one.drop_last() =~= Seq::<ChannelView>::empty());
    assert(yes.drop_last() =~= Seq::<bool>::empty());
    assert(take_in(s2, one, yes) == s2.put_channel(channel.id(), channel).subscribe(channel.id()));
    assert(created_events(one, yes) =~= seq![EventView::ChannelCreate(channel)]);
    assert(Seq::<EventView>::empty() + created_events(one, yes) =~= seq![
        EventView::ChannelCreate(channel),
    ]);
    assert(seq![EventView::ChannelCreate(channel)].push(event) =~= seq![
        EventView::ChannelCreate(channel),
        event,
    ]);
    if known.to_set().subset_of(s.subscribed) {
        assert(s.subscribed.union(known.to_set()) =~= s.subscribed);
    }
}

/// The conditions under which the arrival of `e` leaves the subscriptions in
/// step with the cache. They say that the event changes nothing about whom
/// the viewer follows, and that a topic which it unsubscribes from, or
/// subscribes to, is none that follows from the cache for another reason, or
/// fails to. The creation of a server is not among the quiet events: its
/// channels are cached first and subscribed to only by the recalculation that
/// follows.
pub open spec fn quiet(s: StateView, e: EventView) -> bool {
    let s1 = begin(s, e).0;
    let viewer = s.cache.user_id;
    match e {
        EventView::ChannelCreate(channel) => s1.follows_as_in(s),
        EventView::ChannelDelete { id } => s1.follows_as_in(s) && s.names_nobody(id)
            && !s.cache.servers.contains_key(id),
        EventView::ChannelGroupJoin { id, user } => s.derived_topics().contains(user),
        EventView::ChannelGroupLeave { id, user } => if user == viewer {
            !s.derived_topics().contains(id)
        } else {
            s.cache.can_subscribe_to_user(user) || !s.derived_topics().contains(user)
        },
        EventView::ServerDelete { id } => leaves_quietly(s, id),
        EventView::ServerMemberLeave { id, user } => user == viewer ==> leaves_quietly(s, id),
        EventView::UserRelationship { id, user } => id != viewer && (
        s.cache.can_subscribe_to_user(id) || (id != s.private_topic
            && !s.cache.servers.contains_key(id) && !s.cache.channels.contains_key(id))),
        EventView::ServerCreate { .. } => false,
        _ => true,
    }
}

/// The channels that the cached server `id` declares; none where the server
/// is not cached.
pub open spec fn declared_by(s: StateView, id: Id) -> Set<Id> {
    if s.cache.servers.contains_key(id) {
        s.cache.servers[id].channels.to_set()
    } else {
        Set::empty()
    }
}

/// The conditions under which the viewer's leaving of server `id` leaves the
/// subscriptions in step with the cache.
pub open spec fn leaves_quietly(s: StateView, id: Id) -> bool {
    let declared = declared_by(s, id);
    &&& leave_server(s, id).follows_as_in(s)
    &&& s.names_nobody(id)
    &&& (s.cache.channels.contains_key(id) ==> declared.contains(id))
    &&& (forall|c: Id|
        (#[trigger] declared.contains(c)) ==> s.names_nobody(c) && (c == id
            || !s.cache.servers.contains_key(c)))
}

/// The subscriptions stay in step with the cache through every event that
/// is quiet, up to the point where the event is handled or the recalculation
/// of a server starts.
pub proof fn law_event_keeps_in_step(s: StateView, e: EventView)
    requires
        s.in_step(),
        quiet(s, e),
    ensures
        begin(s, e).0.in_step(),
{
    let s1 = begin(s, e).0;
    match e {
        EventView::ServerDelete { id } => {
            lemma_leaving_keeps_in_step(s, id);
        },
        EventView::ServerMemberLeave { id, user } => {
            if user == s.cache.user_id {
                lemma_leaving_keeps_in_step(s, id);
            }
        },
        EventView::UserRelationship { id, user } => {
            let put = s.put_user(id, user);
            assert forall|t: Id| #[trigger]
                put.cache.can_subscribe_to_user(t) == s.cache.can_subscribe_to_user(t) by {
                assert(put.cache.channels == s.cache.channels);
                if s.cache.shares_channel(t) {
                    let c = choose|c: Id| #[trigger]
                        s.cache.channels.contains_key(c) && s.cache.channels[c].recipients().contains(
                            t,
                        );
                    assert(put.cache.channels.contains_key(c));
                }
                if put.cache.shares_channel(t) {
                    let c = choose|c: Id| #[trigger]
                        put.cache.channels.contains_key(c)
                            && put.cache.channels[c].recipients().contains(t);
                    assert(s.cache.channels.contains_key(c));
                }
            }
            assert(s1.subscribed =~= s1.derived_topics());
        },
        _ => {
            assert(s1.cache.servers.dom() =~= s.cache.servers.dom());
            assert(s1.subscribed =~= s1.derived_topics());
        },
    }
}

/// Leaving a server quietly keeps the subscriptions in step with the cache.
pub proof fn lemma_leaving_keeps_in_step(s: StateView, id: Id)
    requires
        s.in_step(),
        leaves_quietly(s, id),
    ensures
        leave_server(s, id).in_step(),
{
    let s1 = leave_server(s, id);
    let declared = declared_by(s, id);
    if s.cache.servers.contains_key(id) {
        lemma_forget_channels(s.unsubscribe(id), s.cache.servers[id].channels);
    }
    assert(s1.subscribed =~= s.subscribed.difference(declared.insert(id)));
    assert(s1.cache.channels =~= s.cache.channels.remove_keys(declared));
    assert(s1.cache.servers == s.cache.servers.remove(id));
    assert(s1.private_topic == s.private_topic);
    assert(s1.cache.user_id == s.cache.user_id);
    assert forall|t: Id| s1.subscribed.contains(t) <==> s1.derived_topics().contains(t) by {
        assert(s1.cache.can_subscribe_to_user(t) == s.cache.can_subscribe_to_user(t));
        assert(s.subscribed.contains(t) <==> s.derived_topics().contains(t));
        if declared.contains(t) {
            assert(s.names_nobody(t));
        }
    }
    assert(s1.subscribed =~= s1.derived_topics());
}

/// An update leaves a channel's identifier, server and recipients as they
/// are.
pub proof fn lemma_updated_keeps_identity(
    channel: ChannelView,
    data: PartialChannelView,
    clear: Seq<FieldsChannel>,
)
    ensures
        channel.updated(data, clear).id() == channel.id(),
        channel.updated(data, clear).server() == channel.server(),
        channel.updated(data, clear).recipients() == channel.recipients(),
{
}

/// Putting a channel with the same recipients in the place of a cached
/// channel changes nothing about whom the viewer follows.
pub proof fn lemma_replaced_follows(s: StateView, id: Id, channel: ChannelView)
    requires
        s.cache.channels.contains_key(id),
        s.cache.channels[id].recipients() == channel.recipients(),
    ensures
        s.put_channel(id, channel).follows_as_in(s),
{
    let put = s.put_channel(id, channel);
    assert forall|t: Id| #[trigger]
        put.cache.can_subscribe_to_user(t) == s.cache.can_subscribe_to_user(t) by {
        if s.cache.shares_channel(t) {
            let c = choose|c: Id| #[trigger]
                s.cache.channels.contains_key(c) && s.cache.channels[c].recipients().contains(t);
            assert(put.cache.channels.contains_key(c));
        }
        if put.cache.shares_channel(t) {
            let c = choose|c: Id| #[trigger]
                put.cache.channels.contains_key(c) && put.cache.channels[c].recipients().contains(
                    t,
                );
            assert(s.cache.channels.contains_key(c));
        }
    }
}

/// The subscriptions stay in step with the cache through the update of a
/// cached channel, whatever the permission engine answers, unless the viewer
/// could view the channel before and cannot view it after: then the channel
/// stays in the cache while its topic is unsubscribed from.
pub proof fn law_channel_update_keeps_in_step(
    s: StateView,
    id: Id,
    data: PartialChannelView,
    clear: Seq<FieldsChannel>,
    could: bool,
    can: bool,
)
    requires
        s.in_step(),
        s.cache.channels.contains_key(id),
        !(visible(s.cache.channels[id], could) && !visible(
            s.cache.channels[id].updated(data, clear),
            can,
        )),
    ensures
        ({
            let e = EventView::ChannelUpdate { id, data, clear };
            let (s1, first) = begin(s, e);
            let (s2, second) = resume(s1, first->pending, ReplyView::Permissions(seq![could]));
            let (s3, third) = resume(s2, second->pending, ReplyView::Permissions(seq![can]));
            third is Done && s3.in_step()
        }),
{
    let now = s.cache.channels[id].updated(data, clear);
    lemma_updated_keeps_identity(s.cache.channels[id], data, clear);
    lemma_replaced_follows(s, id, now);
    let s2 = s.put_channel(id, now);
    assert(s2.cache.channels.dom() =~= s.cache.channels.dom());
    assert(s2.subscribed =~= s2.derived_topics());
    assert(s2.subscribe(id).subscribed =~= s2.subscribe(id).derived_topics());
}

/// The subscriptions stay in step with the cache through the update of a
/// channel that is not cached: where the fetch fails nothing changes; where
/// the channel comes and the viewer can view it, it is cached and subscribed
/// to. This holds as long as the channel brings the viewer nobody new to
/// follow, and not where the viewer cannot view the channel: then it is
/// cached without a subscription.
pub proof fn law_fetched_update_keeps_in_step(
    s: StateView,
    id: Id,
    data: PartialChannelView,
    clear: Seq<FieldsChannel>,
    fetched: Option<ChannelView>,
    can: bool,
)
    requires
        s.in_step(),
        !s.cache.channels.contains_key(id),
        fetched is Some ==> visible(fetched->0, can) && s.put_channel(
            id,
            fetched->0,
        ).follows_as_in(s),
    ensures
        ({
            let e = EventView::ChannelUpdate { id, data, clear };
            let (s1, first) = begin(s, e);
            let (s2, second) = resume(s1, first->pending, ReplyView::Channel(fetched));
            let (s3, third) = if second is Done {
                (s2, second)
            } else {
                resume(s2, second->pending, ReplyView::Permissions(seq![can]))
            };
            &&& first is Ask && first->request == RequestView::FetchChannel(id)
            &&& third is Done
            &&& s3.in_step()
        }),
{
    if fetched is Some {
        let channel = fetched->0;
        let s3 = s.put_channel(id, channel).subscribe(id);
        assert(s3.subscribed =~= s3.derived_topics());
    }
}

/// Whether the permission engine's answer about the cached channel `t` is
/// that the viewer may view it.
pub open spec fn kept(known: Seq<Id>, granted: Seq<bool>, t: Id) -> bool {
    granted[known.index_of(t)]
}

/// Whether one of the channels fetched goes by the name `t` and can be viewed.
pub open spec fn taken(fetched: Seq<ChannelView>, allowed: Seq<bool>, t: Id) -> bool {
    exists|i: int|
        0 <= i < fetched.len() && visible(#[trigger] fetched[i], allowed[i]) && fetched[i].id()
            == t
}

/// What the cached channels of a server are: cached, of that server, each
/// once, and every cached channel of the server that the order lists is
/// among them.
pub proof fn lemma_known_ids(order: Seq<Id>, channels: Map<Id, ChannelView>, server: Id)
    ensures
        forall|t: Id| #[trigger]
            known_ids(order, channels, server).contains(t) <==> (order.contains(t)
                && channels.contains_key(t) && channels[t].server() == Some(server)),
        order.no_duplicates() ==> known_ids(order, channels, server).no_duplicates(),
    decreases order.len(),
{
    if order.len() > 0 {
        let rest = order.drop_last();
        lemma_known_ids(rest, channels, server);
        let before = known_ids(rest, channels, server);
        let all = known_ids(order, channels, server);
        let k = order.last();
        assert forall|t: Id| #[trigger]
            all.contains(t) <==> (order.contains(t) && channels.contains_key(t)
                && channels[t].server() == Some(server)) by {
            if order.contains(t) {
                let j = choose|j: int| 0 <= j < order.len() && order[j] == t;
                if j < rest.len() {
                    assert(rest[j] == t);
                    assert(rest.contains(t));
                }
            }
            if rest.contains(t) {
                let j = choose|j: int| 0 <= j < rest.len() && rest[j] == t;
                assert(order[j] == t);
            }
            if before.contains(t) {
                let j = choose|j: int| 0 <= j < before.len() && before[j] == t;
                assert(all[j] == t);
            }
            if t == k {
                assert(order[order.len() - 1] == t);
                if channels.contains_key(k) && channels[k].server() == Some(server) {
                    assert(all[before.len() as int] == t);
                }
            }
            if all.contains(t) {
                let j = choose|j: int| 0 <= j < all.len() && all[j] == t;
                if j < before.len() {
                    assert(before[j] == t);
                    assert(before.contains(t));
                }
            }
        }
        if order.no_duplicates() {
            assert(rest.no_duplicates());
            assert(!rest.contains(k)) by {
                if rest.contains(k) {
                    let j = choose|j: int| 0 <= j < rest.len() && rest[j] == k;
                    assert(order[j] == order[order.len() - 1]);
                }
            }
            assert(!before.contains(k));
            assert(all.no_duplicates()) by {
                assert forall|i: int, j: int|
                    0 <= i < all.len() && 0 <= j < all.len() && i != j implies all[i] != all[j] by {
                    if i < before.len() {
                        assert(before[i] == all[i]);
                        assert(before.contains(all[i]));
                    }
                    if j < before.len() {
                        assert(before[j] == all[j]);
                        assert(before.contains(all[j]));
                    }
                }
            }
        }
    }
}

/// What the answers about the cached channels of a server leave: each of
/// them is subscribed to and cached, or neither, as the answer for it says;
/// everything else is as it was.
pub proof fn lemma_settle_known(s: StateView, known: Seq<Id>, granted: Seq<bool>)
    requires
        granted.len() == known.len(),
        known.no_duplicates(),
    ensures
        ({
            let s1 = settle_known(s, known, granted);
            &&& (forall|t: Id| #[trigger]
                s1.subscribed.contains(t) <==> if known.contains(t) {
                    kept(known, granted, t)
                } else {
                    s.subscribed.contains(t)
                })
            &&& (forall|t: Id| #[trigger]
                s1.cache.channels.contains_key(t) <==> s.cache.channels.contains_key(t) && (
                known.contains(t) ==> kept(known, granted, t)))
            &&& (forall|t: Id| #[trigger]
                s1.cache.channels.contains_key(t) ==> s1.cache.channels[t] == s.cache.channels[t])
            &&& s1.cache.servers == s.cache.servers
            &&& s1.cache.users == s.cache.users
            &&& s1.cache.user_id == s.cache.user_id
            &&& s1.private_topic == s.private_topic
        }),
    decreases known.len(),
{
    if known.len() > 0 {
        let rest = known.drop_last();
        let answers = granted.drop_last();
        let last = known.last();
        lemma_settle_known(s, rest, answers);
        let s0 = settle_known(s, rest, answers);
        let s1 = settle_known(s, known, granted);
        assert(!rest.contains(last)) by {
            if rest.contains(last) {
                let j = choose|j: int| 0 <= j < rest.len() && rest[j] == last;
                assert(known[j] == known[known.len() - 1]);
            }
        }
        assert forall|t: Id| known.contains(t) <==> (rest.contains(t) || t == last) by {
            if known.contains(t) {
                let j = choose|j: int| 0 <= j < known.len() && known[j] == t;
                if j < rest.len() {
                    assert(rest[j] == t);
                }
            }
            if rest.contains(t) {
                let j = choose|j: int| 0 <= j < rest.len() && rest[j] == t;
                assert(known[j] == t);
            }
            if t == last {
                assert(known[known.len() - 1] == t);
            }
        }
        assert forall|t: Id| rest.contains(t) implies kept(known, granted, t) == kept(
            rest,
            answers,
            t,
        ) by {
            let j = rest.index_of(t);
            assert(rest[j] == t);
            assert(known[j] == t);
            assert(known.contains(t));
            let k = known.index_of(t);
            assert(known[k] == t);
        }
        assert(kept(known, granted, last) == granted.last()) by {
            assert(known[known.len() - 1] == last);
            let k = known.index_of(last);
            assert(known[k] == last);
        }
        assert forall|t: Id| #[trigger]
            s1.subscribed.contains(t) <==> if known.contains(t) {
                kept(known, granted, t)
            } else {
                s.subscribed.contains(t)
            } by {
            assert(s0.subscribed.contains(t) <==> if rest.contains(t) {
                kept(rest, answers, t)
            } else {
                s.subscribed.contains(t)
            });
        }
        assert forall|t: Id| #[trigger]
            s1.cache.channels.contains_key(t) <==> s.cache.channels.contains_key(t) && (
            known.contains(t) ==> kept(known, granted, t)) by {
            assert(s0.cache.channels.contains_key(t) <==> s.cache.channels.contains_key(t) && (
            rest.contains(t) ==> kept(rest, answers, t)));
        }
        assert forall|t: Id| #[trigger]
            s1.cache.channels.contains_key(t) implies s1.cache.channels[t]
            == s.cache.channels[t] by {
            assert(s0.cache.channels.contains_key(t));
        }
    }
}

/// What the answers about fetched channels leave: each that can be viewed is
/// cached and subscribed to; everything else is as it was.
pub proof fn lemma_take_in(s: StateView, fetched: Seq<ChannelView>, allowed: Seq<bool>)
    requires
        allowed.len() == fetched.len(),
    ensures
        ({
            let s1 = take_in(s, fetched, allowed);
            &&& (forall|t: Id| #[trigger]
                s1.subscribed.contains(t) <==> s.subscribed.contains(t) || taken(
                    fetched,
                    allowed,
                    t,
                ))
            &&& (forall|t: Id| #[trigger]
                s1.cache.channels.contains_key(t) <==> s.cache.channels.contains_key(t) || taken(
                    fetched,
                    allowed,
                    t,
                ))
            &&& s1.cache.servers == s.cache.servers
            &&& s1.cache.users == s.cache.users
            &&& s1.cache.user_id == s.cache.user_id
            &&& s1.private_topic == s.private_topic
        }),
    decreases fetched.len(),
{
    if fetched.len() > 0 {
        let rest = fetched.drop_last();
        let answers = allowed.drop_last();
        lemma_take_in(s, rest, answers);
        let s0 = take_in(s, rest, answers);
        let s1 = take_in(s, fetched, allowed);
        let last = fetched.last();
        assert forall|t: Id|
            taken(fetched, allowed, t) <==> (taken(rest, answers, t) || (visible(
                last,
                allowed.last(),
            ) && last.id() == t)) by {
            if taken(rest, answers, t) {
                let i = choose|i: int|
                    0 <= i < rest.len() && visible(#[trigger] rest[i], answers[i]) && rest[i].id()
                        == t;
                assert(visible(fetched[i], allowed[i]) && fetched[i].id() == t);
            }
            if visible(last, allowed.last()) && last.id() == t {
                let i = fetched.len() - 1;
                assert(visible(fetched[i], allowed[i]) && fetched[i].id() == t);
            }
            if taken(fetched, allowed, t) {
                let i = choose|i: int|
                    0 <= i < fetched.len() && visible(#[trigger] fetched[i], allowed[i])
                        && fetched[i].id() == t;
                if i < rest.len() {
                    assert(visible(rest[i], answers[i]) && rest[i].id() == t);
                }
            }
        }
        assert forall|t: Id| #[trigger]
            s1.subscribed.contains(t) <==> s.subscribed.contains(t) || taken(
                fetched,
                allowed,
                t,
            ) by {
            assert(s0.subscribed.contains(t) <==> s.subscribed.contains(t) || taken(
                rest,
                answers,
                t,
            ));
        }
        assert forall|t: Id| #[trigger]
            s1.cache.channels.contains_key(t) <==> s.cache.channels.contains_key(t) || taken(
                fetched,
                allowed,
                t,
            ) by {
            assert(s0.cache.channels.contains_key(t) <==> s.cache.channels.contains_key(t)
                || taken(rest, answers, t));
        }
    } else {
        assert forall|t: Id| !taken(fetched, allowed, t) by {}
    }
}

/// The subscriptions are in step with the cache when the recalculation of a
/// server has come to its end, whatever the outside answers on the way, if
/// they were in step before, but perhaps for the cached channels of that
/// server. This holds as long as a channel that the viewer may no longer
/// view has a name that is no topic for another reason, and the channels
/// that are gained bring the viewer nobody new to follow.
pub proof fn law_recalculation_keeps_in_step(
    s: StateView,
    id: Id,
    event: EventView,
    granted: Seq<bool>,
    fetched: Option<Seq<ChannelView>>,
    allowed: Seq<bool>,
)
    requires
        s.cache.channel_order.no_duplicates(),
        s.in_step_but(known_ids(s.cache.channel_order, s.cache.channels, id).to_set()),
        s.cache.servers.contains_key(id) ==> granted.len() == known_ids(
            s.cache.channel_order,
            s.cache.channels,
            id,
        ).len(),
        s.cache.servers.contains_key(id) || s.in_step(),
        forall|i: int|
            0 <= i < granted.len() && !granted[i] ==> {
                let name = #[trigger] known_ids(s.cache.channel_order, s.cache.channels, id)[i];
                s.names_nobody(name) && !s.cache.servers.contains_key(name)
            },
        recalculated(s, id, event, granted, fetched, allowed).0.follows_as_in(s),
    ensures
        recalculated(s, id, event, granted, fetched, allowed).1 is Done,
        recalculated(s, id, event, granted, fetched, allowed).0.in_step(),
{
    if s.cache.servers.contains_key(id) {
        let known = known_ids(s.cache.channel_order, s.cache.channels, id);
        lemma_known_ids(s.cache.channel_order, s.cache.channels, id);
        lemma_settle_known(s, known, granted);
        let s2 = settle_known(s, known, granted);
        let end = recalculated(s, id, event, granted, fetched, allowed).0;
        let gained = fetched is Some && allowed.len() == fetched->0.len() && unknown_ids(
            s.cache.servers[id].channels,
            known,
        ).len() != 0;
        if gained {
            lemma_take_in(s2, fetched->0, allowed);
            assert(end == take_in(s2, fetched->0, allowed));
        } else {
            assert(end == s2);
        }
        assert forall|t: Id| end.subscribed.contains(t) <==> end.derived_topics().contains(t) by {
            assert(end.cache.can_subscribe_to_user(t) == s.cache.can_subscribe_to_user(t));
            let came = gained && taken(fetched->0, allowed, t);
            assert(end.subscribed.contains(t) <==> s2.subscribed.contains(t) || came);
            assert(end.cache.channels.contains_key(t) <==> s2.cache.channels.contains_key(t)
                || came);
            if !came {
                if known.contains(t) {
                    let i = known.index_of(t);
                    assert(known[i] == t);
                    assert(s.cache.channels.contains_key(t));
                    if !granted[i] {
                        assert(s.names_nobody(t) && !s.cache.servers.contains_key(t));
                    }
                } else {
                    assert(!known.to_set().contains(t));
                    assert(s.subscribed.contains(t) <==> s.derived_topics().contains(t));
                }
            }
        }
        assert(end.subscribed =~= end.derived_topics());
    }
}

/// Whether one of `channels` goes by the name `t`.
pub open spec fn named(channels: Seq<ChannelView>, t: Id) -> bool {
    exists|i: int| 0 <= i < channels.len() && (#[trigger] channels[i]).id() == t
}

/// What caching a list of channels leaves: the channels cached before and
/// those of the list, each of these as the list holds it; the order lists
/// the cached channels, each once; everything else is as it was.
pub proof fn lemma_put_channels(s: StateView, channels: Seq<ChannelView>)
    requires
        s.cache.channel_order.no_duplicates(),
        s.cache.channels.dom() == s.cache.channel_order.to_set(),
    ensures
        ({
            let s1 = put_channels(s, channels);
            &&& (forall|t: Id| #[trigger]
                s1.cache.channels.contains_key(t) <==> s.cache.channels.contains_key(t) || named(
                    channels,
                    t,
                ))
            &&& (forall|t: Id| #[trigger]
                named(channels, t) ==> exists|i: int|
                    0 <= i < channels.len() && (#[trigger] channels[i]).id() == t
                        && s1.cache.channels[t] == channels[i])
            &&& (forall|t: Id|
                s.cache.channels.contains_key(t) && !named(channels, t)
                    ==> #[trigger] s1.cache.channels[t] == s.cache.channels[t])
            &&& s1.cache.channel_order.no_duplicates()
            &&& s1.cache.channels.dom() == s1.cache.channel_order.to_set()
            &&& s1.subscribed == s.subscribed
            &&& s1.cache.servers == s.cache.servers
            &&& s1.cache.users == s.cache.users
            &&& s1.cache.user_id == s.cache.user_id
            &&& s1.private_topic == s.private_topic
        }),
    decreases channels.len(),
{
    if channels.len() > 0 {
        let rest = channels.drop_last();
        let last = channels.last();
        lemma_put_channels(s, rest);
        let s0 = put_channels(s, rest);
        let s1 = put_channels(s, channels);
        assert forall|t: Id| named(channels, t) <==> (named(rest, t) || last.id() == t) by {
            if named(rest, t) {
                let i = choose|i: int| 0 <= i < rest.len() && (#[trigger] rest[i]).id() == t;
                assert(channels[i].id() == t);
            }
            if last.id() == t {
                assert(channels[channels.len() - 1].id() == t);
            }
            if named(channels, t) {
                let i = choose|i: int|
                    0 <= i < channels.len() && (#[trigger] channels[i]).id() == t;
                if i < rest.len() {
                    assert(rest[i].id() == t);
                }
            }
        }
        assert forall|t: Id| #[trigger] named(channels, t) implies exists|i: int|
            0 <= i < channels.len() && (#[trigger] channels[i]).id() == t && s1.cache.channels[t]
                == channels[i] by {
            if last.id() == t {
                assert(channels[channels.len() - 1].id() == t);
            } else {
                assert(named(rest, t));
                let i = choose|i: int|
                    0 <= i < rest.len() && (#[trigger] rest[i]).id() == t && s0.cache.channels[t]
                        == rest[i];
                assert(channels[i].id() == t && s1.cache.channels[t] == channels[i]);
            }
        }
        let before = s0.cache.channel_order;
        let after = s1.cache.channel_order;
        assert(s1.cache.channels.dom() =~= after.to_set()) by {
            assert forall|t: Id| s1.cache.channels.contains_key(t) <==> after.contains(t) by {
                assert(s0.cache.channels.contains_key(t) <==> before.to_set().contains(t));
                if before.contains(t) {
                    let j = choose|j: int| 0 <= j < before.len() && before[j] == t;
                    assert(after[j] == t);
                }
                if after.contains(t) {
                    let j = choose|j: int| 0 <= j < after.len() && after[j] == t;
                    if j < before.len() {
                        assert(before[j] == t);
                    }
                }
                if t == last.id() && !s0.cache.channels.contains_key(t) {
                    assert(after[before.len() as int] == t);
                }
            }
        }
        assert(after.no_duplicates()) by {
            if !s0.cache.channels.contains_key(last.id()) {
                assert(!before.to_set().contains(last.id()));
                assert forall|i: int, j: int|
                    0 <= i < after.len() && 0 <= j < after.len() && i != j implies after[i]
                    != after[j] by {
                    if i < before.len() {
                        assert(before.contains(before[i]));
                    }
                    if j < before.len() {
                        assert(before.contains(before[j]));
                    }
                }
            }
        }
    } else {
        assert forall|t: Id| !named(channels, t) by {}
    }
}

/// The subscriptions are in step with the cache when the viewer has joined a
/// server and the recalculation that follows has come to its end, if they
/// were in step before. This holds for an event whose channels all belong to
/// the server, as long as they and the channels that are gained bring the
/// viewer nobody new to follow, and a channel that the viewer may not view
/// has a name that is no topic for another reason.
pub proof fn law_server_create_keeps_in_step(
    s: StateView,
    id: Id,
    server: ServerView,
    channels: Seq<ChannelView>,
    emojis: Seq<EmojiView>,
    granted: Seq<bool>,
    fetched: Option<Seq<ChannelView>>,
    allowed: Seq<bool>,
)
    requires
        s.cache.wf(),
        s.in_step(),
        forall|i: int| 0 <= i < channels.len() ==> (#[trigger] channels[i]).server() == Some(id),
        ({
            let e = EventView::ServerCreate { id, server, channels, emojis };
            let joined = begin(s, e).0;
            let known = known_ids(joined.cache.channel_order, joined.cache.channels, id);
            &&& joined.follows_as_in(s)
            &&& granted.len() == known.len()
            &&& (forall|i: int|
                0 <= i < granted.len() && !granted[i] ==> joined.names_nobody(#[trigger] known[i])
                    && !joined.cache.servers.contains_key(known[i]))
            &&& recalculated(joined, id, e, granted, fetched, allowed).0.follows_as_in(joined)
        }),
    ensures
        ({
            let e = EventView::ServerCreate { id, server, channels, emojis };
            let (joined, first) = begin(s, e);
            &&& (joined, first) == recalculate(joined, id, e)
            &&& recalculated(joined, id, e, granted, fetched, allowed).1 is Done
            &&& recalculated(joined, id, e, granted, fetched, allowed).0.in_step()
        }),
{
    let e = EventView::ServerCreate { id, server, channels, emojis };
    let base = s.subscribe(id).put_server(id, server).put_member(
        id,
        MemberView::empty(server.id, s.cache.user_id),
    );
    let joined = put_channels(base, channels);
    assert(joined == begin(s, e).0);
    lemma_put_channels(base, channels);
    let known = known_ids(joined.cache.channel_order, joined.cache.channels, id);
    lemma_known_ids(joined.cache.channel_order, joined.cache.channels, id);
    assert forall|t: Id| !known.to_set().contains(t) implies (#[trigger] joined.subscribed.contains(
        t,
    ) <==> joined.derived_topics().contains(t)) by {
        assert(joined.cache.can_subscribe_to_user(t) == s.cache.can_subscribe_to_user(t));
        assert(s.subscribed.contains(t) <==> s.derived_topics().contains(t));
        if named(channels, t) {
            let i = choose|i: int|
                0 <= i < channels.len() && (#[trigger] channels[i]).id() == t
                    && joined.cache.channels[t] == channels[i];
            assert(joined.cache.channels.contains_key(t));
            assert(joined.cache.channel_order.to_set().contains(t));
            assert(known.contains(t));
        }
    }
    law_recalculation_keeps_in_step(joined, id, e, granted, fetched, allowed);
}

/// Every cached membership is the viewer's own.
pub open spec fn memberships_are_own(s: StateView) -> bool {
    forall|server: Id| #[trigger]
        s.cache.members.contains_key(server) ==> s.cache.members[server].id.user
            == s.cache.user_id
}

/// Caching channels, or going by answers about channels, leaves the
/// memberships and the viewer as they are.
pub proof fn lemma_channels_keep_memberships(
    s: StateView,
    channels: Seq<ChannelView>,
    ids: Seq<Id>,
    granted: Seq<bool>,
)
    ensures
        put_channels(s, channels).cache.members == s.cache.members,
        put_channels(s, channels).cache.user_id == s.cache.user_id,
        settle_known(s, ids, granted).cache.members == s.cache.members,
        settle_known(s, ids, granted).cache.user_id == s.cache.user_id,
        take_in(s, channels, granted).cache.members == s.cache.members,
        take_in(s, channels, granted).cache.user_id == s.cache.user_id,
    decreases channels.len() + ids.len(),
{
    if channels.len() > 0 {
        lemma_channels_keep_memberships(s, channels.drop_last(), Seq::empty(), granted.drop_last());
    }
    if ids.len() > 0 {
        lemma_channels_keep_memberships(s, Seq::empty(), ids.drop_last(), granted.drop_last());
    }
}

/// The cached memberships stay the viewer's own through every step of the
/// handling of every event, whatever the outside replies.
pub proof fn law_memberships_stay_own(
    s: StateView,
    e: EventView,
    pending: PendingView,
    reply: ReplyView,
)
    requires
        memberships_are_own(s),
    ensures
        memberships_are_own(begin(s, e).0),
        memberships_are_own(resume(s, pending, reply).0),
        begin(s, e).0.cache.user_id == s.cache.user_id,
        resume(s, pending, reply).0.cache.user_id == s.cache.user_id,
{
    match e {
        EventView::ServerCreate { id, server, channels, emojis } => {
            let base = s.subscribe(id).put_server(id, server).put_member(
                id,
                MemberView::empty(server.id, s.cache.user_id),
            );
            lemma_channels_keep_memberships(base, channels, Seq::empty(), Seq::empty());
        },
        EventView::ServerDelete { id } => {
            if s.cache.servers.contains_key(id) {
                lemma_forget_channels(s.unsubscribe(id), s.cache.servers[id].channels);
            }
        },
        EventView::ServerMemberLeave { id, user } => {
            if s.cache.servers.contains_key(id) {
                lemma_forget_channels(s.unsubscribe(id), s.cache.servers[id].channels);
            }
        },
        _ => {},
    }
    match pending {
        PendingView::RecalcKnown { server, known, event } => {
            if reply is Permissions {
                lemma_channels_keep_memberships(s, Seq::empty(), known, reply->Permissions_0);
            }
        },
        PendingView::RecalcFetched { bulk, fetched, event } => {
            if reply is Permissions {
                lemma_channels_keep_memberships(s, fetched, Seq::empty(), reply->Permissions_0);
            }
        },
        _ => {},
    }
}

/// Every member that the voice store lists is either reported, with the
/// voice state found for them, or handed back as dangling; a member without
/// a voice state is never reported.
pub proof fn law_voice_members_accounted(found: Seq<VoiceLookupView>)
    ensures
        connected(found).len() + dangling(found).len() == found.len(),
        forall|i: int|
            0 <= i < found.len() && (#[trigger] found[i]).state is None ==> dangling(
                found,
            ).contains(found[i].user),
        forall|state: UserVoiceStateView|
            connected(found).contains(state) ==> exists|i: int|
                0 <= i < found.len() && (#[trigger] found[i]).state == Some(state),
    decreases found.len(),
{
    if found.len() > 0 {
        let rest = found.drop_last();
        law_voice_members_accounted(rest);
        assert forall|i: int|
            0 <= i < found.len() && (#[trigger] found[i]).state is None implies dangling(
            found,
        ).contains(found[i].user) by {
            if i < rest.len() {
                assert(rest[i].state is None);
                let j = choose|j: int|
                    0 <= j < dangling(rest).len() && dangling(rest)[j] == rest[i].user;
                assert(dangling(found)[j] == found[i].user);
            } else {
                assert(dangling(found)[dangling(rest).len() as int] == found[i].user);
            }
        }
        assert forall|state: UserVoiceStateView| connected(found).contains(state) implies exists|
            i: int,
        |
            0 <= i < found.len() && (#[trigger] found[i]).state == Some(state) by {
            let j = choose|j: int| 0 <= j < connected(found).len() && connected(found)[j] == state;
            if j < connected(rest).len() {
                assert(connected(rest)[j] == state);
                assert(connected(rest).contains(state));
                let i = choose|i: int|
                    0 <= i < rest.len() && (#[trigger] rest[i]).state == Some(state);
                assert(found[i].state == Some(state));
            } else {
                assert(found[found.len() - 1].state == Some(state));
            }
        }
    }
}

/// A voice channel whose one listed member has no voice state reports
/// nobody, so no voice state at all, and hands that member back to be
/// deleted from the voice store.
pub proof fn law_voice_drift_repaired(channel: Id, user: Id)
    ensures
        ({
            let found = seq![VoiceLookupView { user, state: None }];
            &&& connected(found).len() == 0
            &&& reported(channel, found) is None
            &&& dangling(found) == seq![user]
        }),
{
    let found = seq![VoiceLookupView { user, state: None }];
    reveal_with_fuel(dangling, 2);
    reveal_with_fuel(connected, 2);
    assert(found.drop_last() =~= Seq::<VoiceLookupView>::empty());
    assert(dangling(found) =~= seq![user]);
}

} // verus!
