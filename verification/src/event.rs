//! The events of the gateway's protocol.

use vstd::prelude::*;
use crate::channel::{Channel, ChannelView, FieldsChannel, PartialChannel, PartialChannelView};
use crate::ids::Id;
use crate::member::{
    FieldsMember, Member, MemberCompositeKey, MemberKeyView, MemberView, PartialMember,
    PartialMemberView,
};
use crate::record::{copy_all, duplicate_all, duplicate_opt, view_opt, views, Record};
use crate::server::{
    FieldsRole, FieldsServer, PartialRole, PartialRoleView, PartialServer, PartialServerView,
    Server, ServerView,
};
use crate::user::{FieldsUser, PartialUser, PartialUserView, User, UserView};
use crate::voice::{ChannelVoiceState, ChannelVoiceStateView};

verus! {

/// A custom emoji of a server.
#[derive(Debug, PartialEq, Eq)]
pub struct Emoji {
    pub id: String,
    /// The server that the emoji belongs to.
    pub parent: String,
    pub name: String,
}

/// What an emoji stands for: the model that contracts speak of.
pub struct EmojiView {
    pub id: Id,
    pub parent: Id,
    pub name: Seq<char>,
}

impl View for Emoji {
    type V = EmojiView;

    open spec fn view(&self) -> EmojiView {
        EmojiView { id: self.id@, parent: self.parent@, name: self.name@ }
    }
}

impl Record for Emoji {
    fn duplicate(&self) -> (r: Self) {
        Emoji { id: self.id.clone(), parent: self.parent.clone(), name: self.name.clone() }
    }
}

/// An event, as it travels to a client.
#[derive(Debug, PartialEq, Eq)]
#[allow(inconsistent_fields)]
pub enum EventV1 {
    /// Several events in one, in the order in which they happened.
    Bulk { v: Vec<EventV1> },
    /// Everything a client needs after it has connected.
    Ready {
        users: Vec<User>,
        servers: Vec<Server>,
        channels: Vec<Channel>,
        members: Vec<Member>,
        emojis: Vec<Emoji>,
        voice_states: Vec<ChannelVoiceState>,
    },
    ChannelCreate(Channel),
    ChannelUpdate { id: String, data: PartialChannel, clear: Vec<FieldsChannel> },
    ChannelDelete { id: String },
    ChannelGroupJoin { id: String, user: String },
    ChannelGroupLeave { id: String, user: String },
    ChannelStartTyping { id: String, user: String },
    ChannelAck { id: String, user: String, message_id: String },
    ServerCreate { id: String, server: Server, channels: Vec<Channel>, emojis: Vec<Emoji> },
    ServerUpdate { id: String, data: PartialServer, clear: Vec<FieldsServer> },
    ServerDelete { id: String },
    ServerMemberUpdate { id: MemberCompositeKey, data: PartialMember, clear: Vec<FieldsMember> },
    ServerMemberJoin { id: String, user: String },
    ServerMemberLeave { id: String, user: String },
    ServerRoleUpdate { id: String, role_id: String, data: PartialRole, clear: Vec<FieldsRole> },
    ServerRoleDelete { id: String, role_id: String },
    UserUpdate { id: String, data: PartialUser, clear: Vec<FieldsUser>, event_id: Option<String> },
    UserRelationship { id: String, user: User },
}

/// What an event stands for: the model that contracts speak of.
#[allow(inconsistent_fields)]
pub enum EventView {
    Bulk { v: Seq<EventView> },
    Ready {
        users: Seq<UserView>,
        servers: Seq<ServerView>,
        channels: Seq<ChannelView>,
        members: Seq<MemberView>,
        emojis: Seq<EmojiView>,
        voice_states: Seq<ChannelVoiceStateView>,
    },
    ChannelCreate(ChannelView),
    ChannelUpdate { id: Id, data: PartialChannelView, clear: Seq<FieldsChannel> },
    ChannelDelete { id: Id },
    ChannelGroupJoin { id: Id, user: Id },
    ChannelGroupLeave { id: Id, user: Id },
    ChannelStartTyping { id: Id, user: Id },
    ChannelAck { id: Id, user: Id, message_id: Id },
    ServerCreate { id: Id, server: ServerView, channels: Seq<ChannelView>, emojis: Seq<EmojiView> },
    ServerUpdate { id: Id, data: PartialServerView, clear: Seq<FieldsServer> },
    ServerDelete { id: Id },
    ServerMemberUpdate { id: MemberKeyView, data: PartialMemberView, clear: Seq<FieldsMember> },
    ServerMemberJoin { id: Id, user: Id },
    ServerMemberLeave { id: Id, user: Id },
    ServerRoleUpdate { id: Id, role_id: Id, data: PartialRoleView, clear: Seq<FieldsRole> },
    ServerRoleDelete { id: Id, role_id: Id },
    UserUpdate { id: Id, data: PartialUserView, clear: Seq<FieldsUser>, event_id: Option<Id> },
    UserRelationship { id: Id, user: UserView },
}

impl View for EventV1 {
    type V = EventView;

    open spec fn view(&self) -> EventView {
        event_view(*self)
    }
}

/// What an event stands for.
pub open spec fn event_view(event: EventV1) -> EventView
    decreases event,
{
    match event {
        EventV1::Bulk { v } => EventView::Bulk {
            v: Seq::new(
                v.len() as nat,
                |i: int|
                    if 0 <= i < v.len() {
                        event_view(v[i])
                    } else {
                        EventView::Bulk { v: Seq::empty() }
                    },
            ),
        },
        EventV1::Ready { users, servers, channels, members, emojis, voice_states } => {
            EventView::Ready {
                users: views(users@),
                servers: views(servers@),
                channels: views(channels@),
                members: views(members@),
                emojis: views(emojis@),
                voice_states: views(voice_states@),
            }
        },
        EventV1::ChannelCreate(channel) => EventView::ChannelCreate(channel@),
        EventV1::ChannelUpdate { id, data, clear } => EventView::ChannelUpdate {
            id: id@,
            data: data@,
            clear: clear@,
        },
        EventV1::ChannelDelete { id } => EventView::ChannelDelete { id: id@ },
        EventV1::ChannelGroupJoin { id, user } => EventView::ChannelGroupJoin {
            id: id@,
            user: user@,
        },
        EventV1::ChannelGroupLeave { id, user } => EventView::ChannelGroupLeave {
            id: id@,
            user: user@,
        },
        EventV1::ChannelStartTyping { id, user } => EventView::ChannelStartTyping {
            id: id@,
            user: user@,
        },
        EventV1::ChannelAck { id, user, message_id } => EventView::ChannelAck {
            id: id@,
            user: user@,
            message_id: message_id@,
        },
        EventV1::ServerCreate { id, server, channels, emojis } => EventView::ServerCreate {
            id: id@,
            server: server@,
            channels: views(channels@),
            emojis: views(emojis@),
        },
        EventV1::ServerUpdate { id, data, clear } => EventView::ServerUpdate {
            id: id@,
            data: data@,
            clear: clear@,
        },
        EventV1::ServerDelete { id } => EventView::ServerDelete { id: id@ },
        EventV1::ServerMemberUpdate { id, data, clear } => EventView::ServerMemberUpdate {
            id: id@,
            data: data@,
            clear: clear@,
        },
        EventV1::ServerMemberJoin { id, user } => EventView::ServerMemberJoin {
            id: id@,
            user: user@,
        },
        EventV1::ServerMemberLeave { id, user } => EventView::ServerMemberLeave {
            id: id@,
            user: user@,
        },
        EventV1::ServerRoleUpdate { id, role_id, data, clear } => EventView::ServerRoleUpdate {
            id: id@,
            role_id: role_id@,
            data: data@,
            clear: clear@,
        },
        EventV1::ServerRoleDelete { id, role_id } => EventView::ServerRoleDelete {
            id: id@,
            role_id: role_id@,
        },
        EventV1::UserUpdate { id, data, clear, event_id } => EventView::UserUpdate {
            id: id@,
            data: data@,
            clear: clear@,
            event_id: view_opt(event_id),
        },
        EventV1::UserRelationship { id, user } => EventView::UserRelationship {
            id: id@,
            user: user@,
        },
    }
}

/// The views of a list of events, in order.
pub open spec fn event_views(v: Seq<EventV1>) -> Seq<EventView> {
    Seq::new(v.len(), |i: int| event_view(v[i]))
}

/// A batch stands for the events it holds, in order.
pub proof fn lemma_bulk_view(v: Vec<EventV1>)
    ensures
        (EventV1::Bulk { v })@ == (EventView::Bulk { v: event_views(v@) }),
{
    assert((EventV1::Bulk { v })@->Bulk_v =~= event_views(v@));
}

impl Record for EventV1 {
    fn duplicate(&self) -> (r: Self)
        decreases self,
    {
        match self {
            EventV1::Bulk { v } => {
                let mut out: Vec<EventV1> = Vec::new();
                let mut i: usize = 0;
                while i < v.len()
                    invariant
                        i <= v.len(),
                        out.len() == i,
                        forall|j: int| 0 <= j < i ==> out[j]@ == v[j]@,
                        self is Bulk,
                        self->Bulk_v == *v,
                    decreases v.len() - i,
                {
                    proof {
                        assert(decreases_to!(self => self->Bulk_v));
                        assert(decreases_to!(*v => v[i as int]));
                    }
                    out.push(v[i].duplicate());
                    i += 1;
                }
                proof {
                    lemma_bulk_view(out);
                    lemma_bulk_view(*v);
                    assert(event_views(out@) =~= event_views(v@));
                }
                EventV1::Bulk { v: out }
            },
            EventV1::Ready { users, servers, channels, members, emojis, voice_states } => {
                EventV1::Ready {
                    users: duplicate_all(users),
                    servers: duplicate_all(servers),
                    channels: duplicate_all(channels),
                    members: duplicate_all(members),
                    emojis: duplicate_all(emojis),
                    voice_states: duplicate_all(voice_states),
                }
            },
            EventV1::ChannelCreate(channel) => EventV1::ChannelCreate(channel.duplicate()),
            EventV1::ChannelUpdate { id, data, clear } => EventV1::ChannelUpdate {
                id: id.clone(),
                data: data.duplicate(),
                clear: copy_all(clear),
            },
            EventV1::ChannelDelete { id } => EventV1::ChannelDelete { id: id.clone() },
            EventV1::ChannelGroupJoin { id, user } => EventV1::ChannelGroupJoin {
                id: id.clone(),
                user: user.clone(),
            },
            EventV1::ChannelGroupLeave { id, user } => EventV1::ChannelGroupLeave {
                id: id.clone(),
                user: user.clone(),
            },
            EventV1::ChannelStartTyping { id, user } => EventV1::ChannelStartTyping {
                id: id.clone(),
                user: user.clone(),
            },
            EventV1::ChannelAck { id, user, message_id } => EventV1::ChannelAck {
                id: id.clone(),
                user: user.clone(),
                message_id: message_id.clone(),
            },
            EventV1::ServerCreate { id, server, channels, emojis } => EventV1::ServerCreate {
                id: id.clone(),
                server: server.duplicate(),
                channels: duplicate_all(channels),
                emojis: duplicate_all(emojis),
            },
            EventV1::ServerUpdate { id, data, clear } => EventV1::ServerUpdate {
                id: id.clone(),
                data: data.duplicate(),
                clear: copy_all(clear),
            },
            EventV1::ServerDelete { id } => EventV1::ServerDelete { id: id.clone() },
            EventV1::ServerMemberUpdate { id, data, clear } => EventV1::ServerMemberUpdate {
                id: id.duplicate(),
                data: data.duplicate(),
                clear: copy_all(clear),
            },
            EventV1::ServerMemberJoin { id, user } => EventV1::ServerMemberJoin {
                id: id.clone(),
                user: user.clone(),
            },
            EventV1::ServerMemberLeave { id, user } => EventV1::ServerMemberLeave {
                id: id.clone(),
                user: user.clone(),
            },
            EventV1::ServerRoleUpdate { id, role_id, data, clear } => EventV1::ServerRoleUpdate {
                id: id.clone(),
                role_id: role_id.clone(),
                data: data.duplicate(),
                clear: copy_all(clear),
            },
            EventV1::ServerRoleDelete { id, role_id } => EventV1::ServerRoleDelete {
                id: id.clone(),
                role_id: role_id.clone(),
            },
            EventV1::UserUpdate { id, data, clear, event_id } => EventV1::UserUpdate {
                id: id.clone(),
                data: data.duplicate(),
                clear: copy_all(clear),
                event_id: duplicate_opt(event_id),
            },
            EventV1::UserRelationship { id, user } => EventV1::UserRelationship {
                id: id.clone(),
                user: user.duplicate(),
            },
        }
    }
}

} // verus!
