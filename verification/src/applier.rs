//! Applying events to a connection's state.
//!
//! An event is handled in steps. Each step changes the cache and the
//! subscriptions and either ends the handling, with the event to forward, or
//! asks something of the outside: the database or the permission engine.
//! Whoever serves the state machine answers the request and hands the reply
//! to `resume`.

use vstd::prelude::*;
use crate::channel::Channel;
use crate::event::EventV1;
use crate::member::{clears_member_field, FieldsMember, Member};
use crate::record::{views, Record};
use crate::recalc::{merge_events, unknown_channels};
use crate::rules::{begin, resume};
use crate::state::State;
use crate::step::{Pending, Progress, Reply, Request};

verus! {

/// A list that holds `channel` alone.
fn only(channel: Channel) -> (r: Vec<Channel>)
    ensures
        views(r@) == seq![channel@],
{
    let mut r: Vec<Channel> = Vec::new();
    r.push(channel);
    assert(views(r@) =~= seq![channel@]);
    r
}

impl State {
    /// Takes an event of the global stream: changes the cache and the
    /// subscriptions as the event's kind asks, and says what to forward, or
    /// what has to be asked of the outside first.
    pub fn handle_incoming_event_v1(&mut self, event: EventV1) -> (r: Progress)
        requires
            old(self).wf(),
        ensures
            final(self).wf(),
            (final(self)@, r@) == begin(old(self)@, event@),
    {
        match event {
            EventV1::ChannelCreate(channel) => {
                let id = channel.id().to_owned();
                self.insert_subscription(id.clone());
                self.put_channel(id, channel.duplicate());
                Progress::Done { forward: true, event: EventV1::ChannelCreate(channel) }
            },
            EventV1::ChannelUpdate { id, data, clear } => {
                match self.cache.channels.get(id.as_str()) {
                    Some(channel) => {
                        let asked = only(channel.duplicate());
                        Progress::Ask {
                            request: Request::Permissions(asked),
                            pending: Pending::UpdateSeen { id, data, clear },
                        }
                    },
                    None => Progress::Ask {
                        request: Request::FetchChannel(id.clone()),
                        pending: Pending::UpdateFetch { id, data, clear },
                    },
                }
            },
            EventV1::ChannelDelete { id } => {
                self.remove_subscription(id.as_str());
                self.drop_channel(id.as_str());
                Progress::Done { forward: true, event: EventV1::ChannelDelete { id } }
            },
            EventV1::ChannelGroupJoin { id, user } => {
                self.insert_subscription(user.clone());
                Progress::Done { forward: true, event: EventV1::ChannelGroupJoin { id, user } }
            },
            EventV1::ChannelGroupLeave { id, user } => {
                if crate::ids::same_id(user.as_str(), self.cache.user_id.as_str()) {
                    self.remove_subscription(id.as_str());
                } else if !self.cache.can_subscribe_to_user(user.as_str()) {
                    self.remove_subscription(user.as_str());
                }
                Progress::Done { forward: true, event: EventV1::ChannelGroupLeave { id, user } }
            },
            EventV1::ServerCreate { id, server, channels, emojis } => {
                self.insert_subscription(id.clone());
                self.put_server(id.clone(), server.duplicate());
                let member = Member::new(server.id.clone(), self.cache.user_id.clone());
                self.put_member(id.clone(), member);
                self.put_channels(&channels);
                let server_id = id.clone();
                let event = EventV1::ServerCreate { id, server, channels, emojis };
                self.recalculate_server(server_id.as_str(), event)
            },
            EventV1::ServerUpdate { id, data, clear } => {
                let updated = match self.cache.servers.get(id.as_str()) {
                    Some(server) => Some(server.updated(&data, &clear)),
                    None => None,
                };
                if let Some(server) = updated {
                    self.put_server(id.clone(), server);
                }
                if data.default_permissions.is_some() {
                    let server_id = id.clone();
                    let event = EventV1::ServerUpdate { id, data, clear };
                    self.recalculate_server(server_id.as_str(), event)
                } else {
                    Progress::Done { forward: true, event: EventV1::ServerUpdate { id, data, clear } }
                }
            },
            EventV1::ServerDelete { id } => {
                self.leave_server(id.as_str());
                Progress::Done { forward: true, event: EventV1::ServerDelete { id } }
            },
            EventV1::ServerMemberLeave { id, user } => {
                if crate::ids::same_id(user.as_str(), self.cache.user_id.as_str()) {
                    self.leave_server(id.as_str());
                }
                Progress::Done { forward: true, event: EventV1::ServerMemberLeave { id, user } }
            },
            EventV1::ServerMemberUpdate { id, data, clear } => {
                if crate::ids::same_id(id.user.as_str(), self.cache.user_id.as_str()) {
                    let updated = match self.cache.members.get(id.server.as_str()) {
                        Some(member) => Some(member.updated(&data, &clear)),
                        None => None,
                    };
                    if let Some(member) = updated {
                        self.put_member(id.server.clone(), member);
                    }
                    if data.roles.is_some() || clears_member_field(&clear, FieldsMember::Roles) {
                        let server_id = id.server.clone();
                        let event = EventV1::ServerMemberUpdate { id, data, clear };
                        self.recalculate_server(server_id.as_str(), event)
                    } else {
                        Progress::Done {
                            forward: true,
                            event: EventV1::ServerMemberUpdate { id, data, clear },
                        }
                    }
                } else {
                    Progress::Done {
                        forward: true,
                        event: EventV1::ServerMemberUpdate { id, data, clear },
                    }
                }
            },
            EventV1::ServerRoleUpdate { id, role_id, data, clear } => {
                let updated = match self.cache.servers.get(id.as_str()) {
                    Some(server) => Some(server.with_role_updated(role_id.as_str(), &data, &clear)),
                    None => None,
                };
                if let Some(server) = updated {
                    self.put_server(id.clone(), server);
                }
                let held = match self.cache.members.get(id.as_str()) {
                    Some(member) => member.has_role(role_id.as_str()),
                    None => false,
                };
                if (data.rank.is_some() || data.permissions.is_some()) && held {
                    let server_id = id.clone();
                    let event = EventV1::ServerRoleUpdate { id, role_id, data, clear };
                    self.recalculate_server(server_id.as_str(), event)
                } else {
                    Progress::Done {
                        forward: true,
                        event: EventV1::ServerRoleUpdate { id, role_id, data, clear },
                    }
                }
            },
            EventV1::ServerRoleDelete { id, role_id } => {
                let updated = match self.cache.servers.get(id.as_str()) {
                    Some(server) => Some(server.without_role(role_id.as_str())),
                    None => None,
                };
                if let Some(server) = updated {
                    self.put_server(id.clone(), server);
                }
                let held = match self.cache.members.get(id.as_str()) {
                    Some(member) => member.has_role(role_id.as_str()),
                    None => false,
                };
                if held {
                    let server_id = id.clone();
                    let event = EventV1::ServerRoleDelete { id, role_id };
                    self.recalculate_server(server_id.as_str(), event)
                } else {
                    Progress::Done { forward: true, event: EventV1::ServerRoleDelete { id, role_id } }
                }
            },
            EventV1::UserUpdate { id, data, clear, event_id } => match event_id {
                Some(seen) => {
                    if self.cache.seen_events.contains(seen.as_str()) {
                        Progress::Done {
                            forward: false,
                            event: EventV1::UserUpdate { id, data, clear, event_id: Some(seen) },
                        }
                    } else {
                        self.cache.seen_events.insert(seen);
                        Progress::Done {
                            forward: true,
                            event: EventV1::UserUpdate { id, data, clear, event_id: None },
                        }
                    }
                },
                None => Progress::Done {
                    forward: true,
                    event: EventV1::UserUpdate { id, data, clear, event_id: None },
                },
            },
            EventV1::UserRelationship { id, user } => {
                self.put_user(id.clone(), user.duplicate());
                if self.cache.can_subscribe_to_user(id.as_str()) {
                    self.insert_subscription(id.clone());
                } else {
                    self.remove_subscription(id.as_str());
                }
                Progress::Done { forward: true, event: EventV1::UserRelationship { id, user } }
            },
            other => Progress::Done { forward: true, event: other },
        }
    }

    /// Goes on with the handling that `pending` stands for, now that the
    /// outside has answered with `reply`.
    pub fn resume(&mut self, pending: Pending, reply: Reply) -> (r: Progress)
        requires
            old(self).wf(),
        ensures
            final(self).wf(),
            (final(self)@, r@) == resume(old(self)@, pending@, reply@),
    {
        match pending {
            Pending::UpdateSeen { id, data, clear } => {
                if let Reply::Permissions(granted) = reply {
                    if granted.len() == 1 {
                        let next = match self.cache.channels.get(id.as_str()) {
                            Some(channel) => Some(
                                (
                                    self.cache.can_view_channel(channel, granted[0]),
                                    channel.updated(&data, &clear),
                                ),
                            ),
                            None => None,
                        };
                        if let Some((could_view, channel)) = next {
                            let asked = only(channel.duplicate());
                            self.put_channel(id.clone(), channel);
                            return Progress::Ask {
                                request: Request::Permissions(asked),
                                pending: Pending::UpdateShown { id, data, clear, could_view },
                            };
                        }
                    }
                }
                Progress::Done { forward: true, event: EventV1::ChannelUpdate { id, data, clear } }
            },
            Pending::UpdateFetch { id, data, clear } => {
                if let Reply::Channel(Some(channel)) = reply {
                    let asked = only(channel.duplicate());
                    self.put_channel(id.clone(), channel);
                    return Progress::Ask {
                        request: Request::Permissions(asked),
                        pending: Pending::UpdateShown { id, data, clear, could_view: false },
                    };
                }
                Progress::Done { forward: true, event: EventV1::ChannelUpdate { id, data, clear } }
            },
            Pending::UpdateShown { id, data, clear, could_view } => {
                if let Reply::Permissions(granted) = reply {
                    if granted.len() == 1 {
                        let shown = match self.cache.channels.get(id.as_str()) {
                            Some(channel) => Some(
                                (
                                    self.cache.can_view_channel(channel, granted[0]),
                                    channel.duplicate(),
                                ),
                            ),
                            None => None,
                        };
                        if let Some((can_view, channel)) = shown {
                            if could_view != can_view {
                                if can_view {
                                    self.insert_subscription(id);
                                    return Progress::Done {
                                        forward: true,
                                        event: EventV1::ChannelCreate(channel),
                                    };
                                } else {
                                    self.remove_subscription(id.as_str());
                                    return Progress::Done {
                                        forward: true,
                                        event: EventV1::ChannelDelete { id },
                                    };
                                }
                            }
                        }
                    }
                }
                Progress::Done { forward: true, event: EventV1::ChannelUpdate { id, data, clear } }
            },
            Pending::RecalcKnown { server, known, event } => {
                if let Reply::Permissions(granted) = reply {
                    if granted.len() == known.len() {
                        let unknown = match self.cache.servers.get(server.as_str()) {
                            Some(cached) => unknown_channels(&cached.channels, &known),
                            None => {
                                let none: Vec<String> = Vec::new();
                                assert(views(none@) =~= Seq::empty());
                                none
                            },
                        };
                        let bulk = self.settle_known(&known, &granted);
                        if unknown.len() == 0 {
                            return Progress::Done { forward: true, event: merge_events(bulk, event) };
                        }
                        return Progress::Ask {
                            request: Request::FetchChannels(unknown),
                            pending: Pending::RecalcFetch { bulk, event },
                        };
                    }
                }
                Progress::Done { forward: true, event }
            },
            Pending::RecalcFetch { bulk, event } => {
                if let Reply::Channels(Some(fetched)) = reply {
                    let asked = crate::record::duplicate_all(&fetched);
                    return Progress::Ask {
                        request: Request::Permissions(asked),
                        pending: Pending::RecalcFetched { bulk, fetched, event },
                    };
                }
                Progress::Done { forward: true, event: merge_events(bulk, event) }
            },
            Pending::RecalcFetched { bulk, fetched, event } => {
                if let Reply::Permissions(granted) = reply {
                    if granted.len() == fetched.len() {
                        let mut bulk = bulk;
                        self.take_in(&fetched, &granted, &mut bulk);
                        return Progress::Done { forward: true, event: merge_events(bulk, event) };
                    }
                }
                Progress::Done { forward: true, event: merge_events(bulk, event) }
            },
        }
    }
}

} // verus!
