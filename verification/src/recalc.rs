//! Recalculating a server: which of its channels the viewer may still view,
//! and which channels the viewer has gained.

use vstd::prelude::*;
use crate::channel::{Channel, ChannelView};
use crate::event::{event_views, lemma_bulk_view, EventV1, EventView};
use crate::ids::{find_id, Id};
use crate::record::{views, Record};
use crate::rules::{
    channels_at, created_events, deleted_events, forget_channels, known_ids, leave_server, merged,
    put_channels, recalculate, settle_known, take_in, unknown_ids,
};
use crate::state::{State, StateView};
use crate::step::{Pending, Progress, Request};

verus! {

/// The event to forward after a recalculation that produced `bulk`.
pub fn merge_events(bulk: Vec<EventV1>, event: EventV1) -> (r: EventV1)
    ensures
        r@ == merged(event_views(bulk@), event@),
{
    if bulk.len() == 0 {
        event
    } else {
        let mut v = bulk;
        let ghost before = v@;
        v.push(event);
        proof {
            lemma_bulk_view(v);
            assert(event_views(v@) =~= event_views(before).push(event@));
        }
        EventV1::Bulk { v }
    }
}

/// The identifiers that a server declares and `known` lacks, each once.
pub fn unknown_channels(declared: &Vec<String>, known: &Vec<String>) -> (r: Vec<String>)
    ensures
        views(r@) == unknown_ids(views(declared@), views(known@)),
{
    let mut unknown: Vec<String> = Vec::new();
    let mut i: usize = 0;
    assert(views(declared@).take(0) =~= Seq::<Id>::empty());
    while i < declared.len()
        invariant
            i <= declared.len(),
            views(unknown@) == unknown_ids(views(declared@).take(i as int), views(known@)),
        decreases declared.len() - i,
    {
        let ghost before = unknown@;
        proof {
            let all = views(declared@);
            assert(all.take(i + 1).drop_last() =~= all.take(i as int));
            assert(all.take(i + 1).last() == declared[i as int]@);
        }
        let id = &declared[i];
        if find_id(known, id.as_str()).is_none() && find_id(&unknown, id.as_str()).is_none() {
            unknown.push(id.clone());
            assert(views(unknown@) =~= views(before).push(id@));
        }
        i += 1;
    }
    assert(views(declared@).take(declared.len() as int) =~= views(declared@));
    unknown
}

impl State {
    /// Caches each of `channels` under its own identifier.
    pub fn put_channels(&mut self, channels: &Vec<Channel>)
        requires
            old(self).wf(),
        ensures
            final(self).wf(),
            final(self)@ == put_channels(old(self)@, views(channels@)),
    {
        let ghost start = self@;
        let mut i: usize = 0;
        assert(views(channels@).take(0) =~= Seq::<ChannelView>::empty());
        while i < channels.len()
            invariant
                i <= channels.len(),
                self.wf(),
                self@ == put_channels(start, views(channels@).take(i as int)),
            decreases channels.len() - i,
        {
            proof {
                let all = views(channels@);
                assert(all.take(i + 1).drop_last() =~= all.take(i as int));
                assert(all.take(i + 1).last() == channels[i as int]@);
            }
            let channel = &channels[i];
            self.put_channel(channel.id().to_owned(), channel.duplicate());
            i += 1;
        }
        assert(views(channels@).take(channels.len() as int) =~= views(channels@));
    }

    /// Forgets the channels `ids` and unsubscribes from them.
    pub fn forget_channels(&mut self, ids: &Vec<String>)
        requires
            old(self).wf(),
        ensures
            final(self).wf(),
            final(self)@ == forget_channels(old(self)@, views(ids@)),
    {
        let ghost start = self@;
        let mut i: usize = 0;
        assert(views(ids@).take(0) =~= Seq::<Id>::empty());
        while i < ids.len()
            invariant
                i <= ids.len(),
                self.wf(),
                self@ == forget_channels(start, views(ids@).take(i as int)),
            decreases ids.len() - i,
        {
            proof {
                let all = views(ids@);
                assert(all.take(i + 1).drop_last() =~= all.take(i as int));
                assert(all.take(i + 1).last() == ids[i as int]@);
            }
            self.remove_subscription(ids[i].as_str());
            self.drop_channel(ids[i].as_str());
            i += 1;
        }
        assert(views(ids@).take(ids.len() as int) =~= views(ids@));
    }

    /// Forgets the server `id`, the channels it declares and the viewer's
    /// membership of it, and unsubscribes from the server and those channels.
    pub fn leave_server(&mut self, id: &str)
        requires
            old(self).wf(),
        ensures
            final(self).wf(),
            final(self)@ == leave_server(old(self)@, id@),
    {
        self.remove_subscription(id);
        if let Some(server) = self.drop_server(id) {
            self.forget_channels(&server.channels);
            proof {
                lemma_forget_keeps_servers(
                    old(self)@.unsubscribe(id@).drop_server(id@),
                    views(server.channels@),
                );
                lemma_forget_then_drop(old(self)@.unsubscribe(id@), views(server.channels@), id@);
            }
        }
        self.drop_member(id);
    }

    /// Starts the recalculation of the server `id` while `event` is handled:
    /// where the server is cached, asks which of its cached channels the
    /// viewer may still view.
    pub fn recalculate_server(&mut self, id: &str, event: EventV1) -> (r: Progress)
        requires
            old(self).wf(),
        ensures
            final(self).wf(),
            (final(self)@, r@) == recalculate(old(self)@, id@, event@),
    {
        if !self.cache.servers.contains_key(id) {
            return Progress::Done { forward: true, event };
        }
        let mut known: Vec<String> = Vec::new();
        let mut channels: Vec<Channel> = Vec::new();
        let mut i: usize = 0;
        let ghost order = self.cache.channels.order();
        let ghost cached = self.cache.channels@;
        assert(order.take(0) =~= Seq::<Id>::empty());
        assert(views(channels@) =~= channels_at(views(known@), cached));
        while i < self.cache.channels.len()
            invariant
                i <= order.len(),
                self.wf(),
                order == self.cache.channels.order(),
                cached == self.cache.channels@,
                views(known@) == known_ids(order.take(i as int), cached, id@),
                views(channels@) == channels_at(views(known@), cached),
            decreases order.len() - i,
        {
            let ghost known_before = known@;
            let ghost channels_before = channels@;
            proof {
                assert(order.take(i + 1).drop_last() =~= order.take(i as int));
                assert(order.take(i + 1).last() == order[i as int]);
            }
            let channel = self.cache.channels.value_at(i);
            let belongs = match channel.server() {
                Some(server) => crate::ids::same_id(server, id),
                None => false,
            };
            if belongs {
                let key = self.cache.channels.key_at(i);
                known.push(key.clone());
                channels.push(channel.duplicate());
                proof {
                    assert(views(known@) =~= views(known_before).push(key@));
                    assert(views(channels@) =~= views(channels_before).push(channel@));
                    assert(views(channels@) =~= channels_at(views(known@), cached));
                }
            }
            i += 1;
        }
        assert(order.take(order.len() as int) =~= order);
        Progress::Ask {
            request: Request::Permissions(channels),
            pending: Pending::RecalcKnown { server: id.to_owned(), known, event },
        }
    }

    /// Goes by the answers about the cached channels of a server: subscribes
    /// to those that the viewer may still view, forgets the others, and hands
    /// back a deletion for each of these.
    pub fn settle_known(&mut self, known: &Vec<String>, granted: &Vec<bool>) -> (bulk: Vec<
        EventV1,
    >)
        requires
            old(self).wf(),
            granted.len() == known.len(),
        ensures
            final(self).wf(),
            final(self)@ == settle_known(old(self)@, views(known@), granted@),
            event_views(bulk@) == deleted_events(views(known@), granted@),
    {
        let ghost start = self@;
        let mut bulk: Vec<EventV1> = Vec::new();
        let mut i: usize = 0;
        assert(views(known@).take(0) =~= Seq::<Id>::empty());
        assert(event_views(bulk@) =~= Seq::<EventView>::empty());
        while i < known.len()
            invariant
                i <= known.len(),
                granted.len() == known.len(),
                self.wf(),
                self@ == settle_known(start, views(known@).take(i as int), granted@.take(i as int)),
                event_views(bulk@) == deleted_events(
                    views(known@).take(i as int),
                    granted@.take(i as int),
                ),
            decreases known.len() - i,
        {
            let ghost bulk_before = bulk@;
            proof {
                let all = views(known@);
                assert(all.take(i + 1).drop_last() =~= all.take(i as int));
                assert(all.take(i + 1).last() == known[i as int]@);
                assert(granted@.take(i + 1).drop_last() =~= granted@.take(i as int));
            }
            if granted[i] {
                self.insert_subscription(known[i].clone());
            } else {
                self.remove_subscription(known[i].as_str());
                self.drop_channel(known[i].as_str());
                let deleted = EventV1::ChannelDelete { id: known[i].clone() };
                bulk.push(deleted);
                assert(event_views(bulk@) =~= event_views(bulk_before).push(
                    EventView::ChannelDelete { id: known[i as int]@ },
                ));
            }
            i += 1;
        }
        proof {
            assert(views(known@).take(known.len() as int) =~= views(known@));
            assert(granted@.take(granted.len() as int) =~= granted@);
        }
        bulk
    }

    /// Goes by the answers about channels that were fetched: caches and
    /// subscribes to each that the viewer can view, and adds a creation for
    /// it to `bulk`.
    pub fn take_in(&mut self, fetched: &Vec<Channel>, granted: &Vec<bool>, bulk: &mut Vec<EventV1>)
        requires
            old(self).wf(),
            granted.len() == fetched.len(),
        ensures
            final(self).wf(),
            final(self)@ == take_in(old(self)@, views(fetched@), granted@),
            event_views(final(bulk)@) == event_views(old(bulk)@) + created_events(
                views(fetched@),
                granted@,
            ),
    {
        let ghost start = self@;
        let ghost bulk_start = event_views(bulk@);
        let mut i: usize = 0;
        assert(views(fetched@).take(0) =~= Seq::<ChannelView>::empty());
        assert(bulk_start + Seq::<EventView>::empty() =~= bulk_start);
        while i < fetched.len()
            invariant
                i <= fetched.len(),
                granted.len() == fetched.len(),
                self.wf(),
                self@ == take_in(start, views(fetched@).take(i as int), granted@.take(i as int)),
                event_views(bulk@) == bulk_start + created_events(
                    views(fetched@).take(i as int),
                    granted@.take(i as int),
                ),
            decreases fetched.len() - i,
        {
            let ghost bulk_before = bulk@;
            proof {
                let all = views(fetched@);
                assert(all.take(i + 1).drop_last() =~= all.take(i as int));
                assert(all.take(i + 1).last() == fetched[i as int]@);
                assert(granted@.take(i + 1).drop_last() =~= granted@.take(i as int));
            }
            let channel = &fetched[i];
            if self.cache.can_view_channel(channel, granted[i]) {
                self.put_channel(channel.id().to_owned(), channel.duplicate());
                self.insert_subscription(channel.id().to_owned());
                bulk.push(EventV1::ChannelCreate(channel.duplicate()));
                proof {
                    let made = created_events(
                        views(fetched@).take(i as int),
                        granted@.take(i as int),
                    );
                    assert(event_views(bulk@) =~= event_views(bulk_before).push(
                        EventView::ChannelCreate(channel@),
                    ));
                    assert(event_views(bulk@) =~= bulk_start + made.push(
                        EventView::ChannelCreate(channel@),
                    ));
                }
            }
            i += 1;
        }
        proof {
            assert(views(fetched@).take(fetched.len() as int) =~= views(fetched@));
            assert(granted@.take(granted.len() as int) =~= granted@);
        }
    }
}

/// Forgetting channels leaves the servers as they are.
pub proof fn lemma_forget_keeps_servers(s: StateView, ids: Seq<Id>)
    ensures
        forget_channels(s, ids).cache.servers == s.cache.servers,
        forget_channels(s, ids).cache.server_order == s.cache.server_order,
        forget_channels(s, ids).cache.members == s.cache.members,
        forget_channels(s, ids).cache.users == s.cache.users,
        forget_channels(s, ids).cache.user_id == s.cache.user_id,
        forget_channels(s, ids).cache.seen == s.cache.seen,
        forget_channels(s, ids).cache.capacity == s.cache.capacity,
        forget_channels(s, ids).private_topic == s.private_topic,
    decreases ids.len(),
{
    if ids.len() > 0 {
        lemma_forget_keeps_servers(s, ids.drop_last());
    }
}

/// Whether a server is dropped before or after channels are forgotten makes
/// no difference.
pub proof fn lemma_forget_then_drop(s: StateView, ids: Seq<Id>, server: Id)
    ensures
        forget_channels(s.drop_server(server), ids) == forget_channels(s, ids).drop_server(server),
    decreases ids.len(),
{
    if ids.len() > 0 {
        lemma_forget_then_drop(s, ids.drop_last(), server);
        lemma_forget_keeps_servers(s, ids.drop_last());
    }
}

} // verus!
