//! Telling everybody who follows the viewer that the viewer has come online
//! or gone offline.

use vstd::prelude::*;
use crate::event::{EventV1, EventView};
use crate::ids::Id;
use crate::record::views;
use crate::state::{State, StateView};
use crate::user::{FieldsUser, PartialUser, PartialUserView};

verus! {

/// An event and the topics to publish it on.
#[derive(Debug, PartialEq, Eq)]
pub struct Broadcast {
    pub event: EventV1,
    pub topics: Vec<String>,
}

/// The length of a fresh event identifier.
pub const EVENT_ID_LEN: usize = 26;

/// A fresh event identifier, from `ulid::Ulid::new` and its `to_string`: the
/// ULID of the present moment in Crockford's base 32, which always has 26
/// characters. Which identifier comes is not said.
#[verifier::external_body]
fn fresh_event_id() -> (r: String)
    ensures
        r@.len() == EVENT_ID_LEN,
{
    ulid::Ulid::new().to_string()
}

/// The update that says that `viewer` is online or not, under the event
/// identifier `event_id`.
pub open spec fn presence_event(viewer: Id, online: bool, event_id: Id) -> EventView {
    EventView::UserUpdate {
        id: viewer,
        data: PartialUserView { username: None, status: None, online: Some(online) },
        clear: Seq::empty(),
        event_id: Some(event_id),
    }
}

/// Whether the viewer's presence is told at all: not while they have chosen
/// to be invisible.
pub open spec fn tells_presence(s: StateView) -> bool {
    !s.cache.users[s.cache.user_id].is_invisible()
}

/// The topics that a change of the viewer's presence goes to: every cached
/// server, in the order of the cache, and the viewer last.
pub open spec fn presence_topics(s: StateView) -> Seq<Id> {
    s.cache.server_order.push(s.cache.user_id)
}

impl State {
    /// The broadcast that tells of the viewer's presence under the event
    /// identifier `event_id`; none while the viewer is invisible.
    pub fn presence_change(&self, target: bool, event_id: String) -> (r: Option<Broadcast>)
        requires
            self.wf(),
        ensures
            r is Some == tells_presence(self@),
            match r {
                Some(b) => {
                    &&& b.event@ == presence_event(self@.cache.user_id, target, event_id@)
                    &&& views(b.topics@) == presence_topics(self@)
                },
                None => true,
            },
    {
        let viewer = self.clone_user();
        if viewer.is_invisible() {
            return None;
        }
        let mut topics: Vec<String> = Vec::new();
        let mut i: usize = 0;
        let ghost order = self.cache.servers.order();
        while i < self.cache.servers.len()
            invariant
                i <= order.len(),
                order == self.cache.servers.order(),
                self.wf(),
                views(topics@) == order.take(i as int),
            decreases order.len() - i,
        {
            let ghost before = topics@;
            let key = self.cache.servers.key_at(i);
            topics.push(key.clone());
            assert(views(topics@) =~= views(before).push(key@));
            assert(order.take(i + 1) =~= order.take(i as int).push(order[i as int]));
            i += 1;
        }
        assert(order.take(order.len() as int) =~= order);
        let ghost before = topics@;
        topics.push(self.cache.user_id.clone());
        assert(views(topics@) =~= views(before).push(self.cache.user_id@));
        let clear: Vec<FieldsUser> = Vec::new();
        let event = EventV1::UserUpdate {
            id: self.cache.user_id.clone(),
            data: PartialUser { username: None, status: None, online: Some(target) },
            clear,
            event_id: Some(event_id),
        };
        assert(clear@ =~= Seq::empty());
        Some(Broadcast { event, topics })
    }

    /// The broadcast that tells of the viewer's presence under a fresh event
    /// identifier; none while the viewer is invisible.
    pub fn broadcast_presence_change(&self, target: bool) -> (r: Option<Broadcast>)
        requires
            self.wf(),
        ensures
            r is Some == tells_presence(self@),
            match r {
                Some(b) => {
                    &&& views(b.topics@) == presence_topics(self@)
                    &&& exists|event_id: Id|
                        event_id.len() == EVENT_ID_LEN && b.event@ == #[trigger] presence_event(
                            self@.cache.user_id,
                            target,
                            event_id,
                        )
                },
                None => true,
            },
    {
        let event_id = fresh_event_id();
        self.presence_change(target, event_id)
    }
}

} // verus!
