//! The rules of the state machine, as functions on the views of states and
//! events: what each event does to the cache and to the subscriptions, what
//! is asked of the outside on the way, and what is forwarded in the end.

use vstd::prelude::*;
use crate::cache::visible;
use crate::channel::ChannelView;
use crate::event::EventView;
use crate::ids::Id;
use crate::member::{FieldsMember, MemberView};
use crate::state::StateView;
use crate::step::{PendingView, ProgressView, ReplyView, RequestView};

verus! {

/// The handling ends here: `event` is forwarded.
pub open spec fn done(s: StateView, event: EventView) -> (StateView, ProgressView) {
    (s, ProgressView::Done { forward: true, event })
}

/// The state with each of `channels` cached under its own identifier, one
/// after the other.
pub open spec fn put_channels(s: StateView, channels: Seq<ChannelView>) -> StateView
    decreases channels.len(),
{
    if channels.len() == 0 {
        s
    } else {
        put_channels(s, channels.drop_last()).put_channel(channels.last().id(), channels.last())
    }
}

/// The state without the channels `ids`, neither cached nor subscribed to.
pub open spec fn forget_channels(s: StateView, ids: Seq<Id>) -> StateView
    decreases ids.len(),
{
    if ids.len() == 0 {
        s
    } else {
        forget_channels(s, ids.drop_last()).unsubscribe(ids.last()).drop_channel(ids.last())
    }
}

/// The state after the viewer has lost the server `id`: the server, the
/// channels it declares and the viewer's membership are neither cached nor
/// subscribed to.
pub open spec fn leave_server(s: StateView, id: Id) -> StateView {
    let s1 = s.unsubscribe(id);
    let s2 = if s.cache.servers.contains_key(id) {
        forget_channels(s1, s.cache.servers[id].channels)
    } else {
        s1
    };
    s2.drop_server(id).drop_member(id)
}

/// The cached channels that belong to `server`, in the order of the cache.
pub open spec fn known_ids(order: Seq<Id>, channels: Map<Id, ChannelView>, server: Id) -> Seq<Id>
    decreases order.len(),
{
    if order.len() == 0 {
        Seq::empty()
    } else {
        let rest = known_ids(order.drop_last(), channels, server);
        let k = order.last();
        if channels.contains_key(k) && channels[k].server() == Some(server) {
            rest.push(k)
        } else {
            rest
        }
    }
}

/// The channels cached under `ids`, in that order.
pub open spec fn channels_at(ids: Seq<Id>, channels: Map<Id, ChannelView>) -> Seq<ChannelView> {
    Seq::new(ids.len(), |i: int| channels[ids[i]])
}

/// The state after the answers `granted` about the cached channels `known`:
/// a channel that the viewer may still view is subscribed to, any other is
/// neither cached nor subscribed to any more.
pub open spec fn settle_known(s: StateView, known: Seq<Id>, granted: Seq<bool>) -> StateView
    decreases known.len(),
{
    if known.len() == 0 || granted.len() != known.len() {
        s
    } else {
        let before = settle_known(s, known.drop_last(), granted.drop_last());
        if granted.last() {
            before.subscribe(known.last())
        } else {
            before.unsubscribe(known.last()).drop_channel(known.last())
        }
    }
}

/// A deletion for each of `known` that the viewer may no longer view, in
/// order.
pub open spec fn deleted_events(known: Seq<Id>, granted: Seq<bool>) -> Seq<EventView>
    decreases known.len(),
{
    if known.len() == 0 || granted.len() != known.len() {
        Seq::empty()
    } else {
        let before = deleted_events(known.drop_last(), granted.drop_last());
        if granted.last() {
            before
        } else {
            before.push(EventView::ChannelDelete { id: known.last() })
        }
    }
}

/// The identifiers that a server declares and `known` lacks, each once, in
/// the order in which the server declares them.
pub open spec fn unknown_ids(declared: Seq<Id>, known: Seq<Id>) -> Seq<Id>
    decreases declared.len(),
{
    if declared.len() == 0 {
        Seq::empty()
    } else {
        let rest = unknown_ids(declared.drop_last(), known);
        let k = declared.last();
        if known.contains(k) || rest.contains(k) {
            rest
        } else {
            rest.push(k)
        }
    }
}

/// The state after the answers `granted` about the channels `fetched`: each
/// one that the viewer can view is cached and subscribed to.
pub open spec fn take_in(s: StateView, fetched: Seq<ChannelView>, granted: Seq<bool>) -> StateView
    decreases fetched.len(),
{
    if fetched.len() == 0 || granted.len() != fetched.len() {
        s
    } else {
        let before = take_in(s, fetched.drop_last(), granted.drop_last());
        let channel = fetched.last();
        if visible(channel, granted.last()) {
            before.put_channel(channel.id(), channel).subscribe(channel.id())
        } else {
            before
        }
    }
}

/// A creation for each of `fetched` that the viewer can view, in order.
pub open spec fn created_events(fetched: Seq<ChannelView>, granted: Seq<bool>) -> Seq<EventView>
    decreases fetched.len(),
{
    if fetched.len() == 0 || granted.len() != fetched.len() {
        Seq::empty()
    } else {
        let before = created_events(fetched.drop_last(), granted.drop_last());
        if visible(fetched.last(), granted.last()) {
            before.push(EventView::ChannelCreate(fetched.last()))
        } else {
            before
        }
    }
}

/// The event to forward after a recalculation that produced `bulk`: the
/// event itself where nothing was produced, else one batch of what was
/// produced, in order, and the event last.
pub open spec fn merged(bulk: Seq<EventView>, event: EventView) -> EventView {
    if bulk.len() == 0 {
        event
    } else {
        EventView::Bulk { v: bulk.push(event) }
    }
}

/// The start of the recalculation of server `id` while `event` is handled:
/// for a cached server, the question which of its cached channels the viewer
/// may still view.
pub open spec fn recalculate(s: StateView, id: Id, event: EventView) -> (StateView, ProgressView) {
    if s.cache.servers.contains_key(id) {
        let known = known_ids(s.cache.channel_order, s.cache.channels, id);
        (
            s,
            ProgressView::Ask {
                request: RequestView::Permissions(channels_at(known, s.cache.channels)),
                pending: PendingView::RecalcKnown { server: id, known, event },
            },
        )
    } else {
        done(s, event)
    }
}

/// The whole recalculation of server `id` while `event` is handled, given
/// what the outside answers on the way: `granted` about the cached channels
/// of the server, `fetched` for the channels that the cache lacks, `allowed`
/// about those.
pub open spec fn recalculated(
    s: StateView,
    id: Id,
    event: EventView,
    granted: Seq<bool>,
    fetched: Option<Seq<ChannelView>>,
    allowed: Seq<bool>,
) -> (StateView, ProgressView) {
    let (s1, first) = recalculate(s, id, event);
    if first is Done {
        (s1, first)
    } else {
        let (s2, second) = resume(s1, first->pending, ReplyView::Permissions(granted));
        if second is Done {
            (s2, second)
        } else {
            let (s3, third) = resume(s2, second->pending, ReplyView::Channels(fetched));
            if third is Done {
                (s3, third)
            } else {
                resume(s3, third->pending, ReplyView::Permissions(allowed))
            }
        }
    }
}

/// What an event does when it arrives.
pub open spec fn begin(s: StateView, e: EventView) -> (StateView, ProgressView) {
    let viewer = s.cache.user_id;
    match e {
        EventView::ChannelCreate(channel) => done(
            s.subscribe(channel.id()).put_channel(channel.id(), channel),
            e,
        ),
        EventView::ChannelUpdate { id, data, clear } => if s.cache.channels.contains_key(id) {
            (
                s,
                ProgressView::Ask {
                    request: RequestView::Permissions(seq![s.cache.channels[id]]),
                    pending: PendingView::UpdateSeen { id, data, clear },
                },
            )
        } else {
            (
                s,
                ProgressView::Ask {
                    request: RequestView::FetchChannel(id),
                    pending: PendingView::UpdateFetch { id, data, clear },
                },
            )
        },
        EventView::ChannelDelete { id } => done(s.unsubscribe(id).drop_channel(id), e),
        EventView::ChannelGroupJoin { id, user } => done(s.subscribe(user), e),
        EventView::ChannelGroupLeave { id, user } => done(
            if user == viewer {
                s.unsubscribe(id)
            } else if !s.cache.can_subscribe_to_user(user) {
                s.unsubscribe(user)
            } else {
                s
            },
            e,
        ),
        EventView::ServerCreate { id, server, channels, emojis } => recalculate(
            put_channels(
                s.subscribe(id).put_server(id, server).put_member(
                    id,
                    MemberView::empty(server.id, viewer),
                ),
                channels,
            ),
            id,
            e,
        ),
        EventView::ServerUpdate { id, data, clear } => {
            let s1 = if s.cache.servers.contains_key(id) {
                s.put_server(id, s.cache.servers[id].updated(data, clear))
            } else {
                s
            };
            if data.default_permissions is Some {
                recalculate(s1, id, e)
            } else {
                done(s1, e)
            }
        },
        EventView::ServerDelete { id } => done(leave_server(s, id), e),
        EventView::ServerMemberLeave { id, user } => done(
            if user == viewer {
                leave_server(s, id)
            } else {
                s
            },
            e,
        ),
        EventView::ServerMemberUpdate { id, data, clear } => if id.user == viewer {
            let s1 = if s.cache.members.contains_key(id.server) {
                s.put_member(id.server, s.cache.members[id.server].updated(data, clear))
            } else {
                s
            };
            if data.roles is Some || clear.contains(FieldsMember::Roles) {
                recalculate(s1, id.server, e)
            } else {
                done(s1, e)
            }
        } else {
            done(s, e)
        },
        EventView::ServerRoleUpdate { id, role_id, data, clear } => {
            let s1 = if s.cache.servers.contains_key(id) {
                s.put_server(id, s.cache.servers[id].with_role_updated(role_id, data, clear))
            } else {
                s
            };
            if (data.rank is Some || data.permissions is Some) && s.cache.members.contains_key(id)
                && s.cache.members[id].roles.contains(role_id) {
                recalculate(s1, id, e)
            } else {
                done(s1, e)
            }
        },
        EventView::ServerRoleDelete { id, role_id } => {
            let s1 = if s.cache.servers.contains_key(id) {
                s.put_server(id, s.cache.servers[id].without_role(role_id))
            } else {
                s
            };
            if s.cache.members.contains_key(id) && s.cache.members[id].roles.contains(role_id) {
                recalculate(s1, id, e)
            } else {
                done(s1, e)
            }
        },
        EventView::UserUpdate { id, data, clear, event_id } => match event_id {
            Some(seen) => if s.cache.seen.contains(seen) {
                (s, ProgressView::Done { forward: false, event: e })
            } else {
                done(s.remember(seen), EventView::UserUpdate { id, data, clear, event_id: None })
            },
            None => done(s, e),
        },
        EventView::UserRelationship { id, user } => {
            let s1 = s.put_user(id, user);
            done(
                if s1.cache.can_subscribe_to_user(id) {
                    s1.subscribe(id)
                } else {
                    s1.unsubscribe(id)
                },
                e,
            )
        },
        _ => done(s, e),
    }
}

/// What a reply does to the handling that waited for it. A reply that does
/// not answer the request counts as a request that failed.
pub open spec fn resume(s: StateView, pending: PendingView, reply: ReplyView) -> (
    StateView,
    ProgressView,
) {
    match pending {
        PendingView::UpdateSeen { id, data, clear } => {
            if reply is Permissions && reply->Permissions_0.len() == 1
                && s.cache.channels.contains_key(id) {
                let granted = reply->Permissions_0;
                let could_view = visible(s.cache.channels[id], granted[0]);
                let channel = s.cache.channels[id].updated(data, clear);
                (
                    s.put_channel(id, channel),
                    ProgressView::Ask {
                        request: RequestView::Permissions(seq![channel]),
                        pending: PendingView::UpdateShown { id, data, clear, could_view },
                    },
                )
            } else {
                done(s, EventView::ChannelUpdate { id, data, clear })
            }
        },
        PendingView::UpdateFetch { id, data, clear } => {
            if reply is Channel && reply->Channel_0 is Some {
                let channel = reply->Channel_0->0;
                (
                    s.put_channel(id, channel),
                    ProgressView::Ask {
                        request: RequestView::Permissions(seq![channel]),
                        pending: PendingView::UpdateShown { id, data, clear, could_view: false },
                    },
                )
            } else {
                done(s, EventView::ChannelUpdate { id, data, clear })
            }
        },
        PendingView::UpdateShown { id, data, clear, could_view } => {
            if reply is Permissions && reply->Permissions_0.len() == 1
                && s.cache.channels.contains_key(id) {
                let granted = reply->Permissions_0;
                let channel = s.cache.channels[id];
                let can_view = visible(channel, granted[0]);
                if could_view == can_view {
                    done(s, EventView::ChannelUpdate { id, data, clear })
                } else if can_view {
                    done(s.subscribe(id), EventView::ChannelCreate(channel))
                } else {
                    done(s.unsubscribe(id), EventView::ChannelDelete { id })
                }
            } else {
                done(s, EventView::ChannelUpdate { id, data, clear })
            }
        },
        PendingView::RecalcKnown { server, known, event } => {
            if reply is Permissions && reply->Permissions_0.len() == known.len() {
                let granted = reply->Permissions_0;
                let s1 = settle_known(s, known, granted);
                let bulk = deleted_events(known, granted);
                let unknown = if s.cache.servers.contains_key(server) {
                    unknown_ids(s.cache.servers[server].channels, known)
                } else {
                    Seq::empty()
                };
                if unknown.len() == 0 {
                    done(s1, merged(bulk, event))
                } else {
                    (
                        s1,
                        ProgressView::Ask {
                            request: RequestView::FetchChannels(unknown),
                            pending: PendingView::RecalcFetch { bulk, event },
                        },
                    )
                }
            } else {
                done(s, event)
            }
        },
        PendingView::RecalcFetch { bulk, event } => {
            if reply is Channels && reply->Channels_0 is Some {
                let fetched = reply->Channels_0->0;
                (
                    s,
                    ProgressView::Ask {
                        request: RequestView::Permissions(fetched),
                        pending: PendingView::RecalcFetched { bulk, fetched, event },
                    },
                )
            } else {
                done(s, merged(bulk, event))
            }
        },
        PendingView::RecalcFetched { bulk, fetched, event } => {
            if reply is Permissions && reply->Permissions_0.len() == fetched.len() {
                let granted = reply->Permissions_0;
                done(
                    take_in(s, fetched, granted),
                    merged(bulk + created_events(fetched, granted), event),
                )
            } else {
                done(s, merged(bulk, event))
            }
        },
    }
}

} // verus!
