//! Channels.

use vstd::prelude::*;
use crate::ids::{find_id, Id};
use crate::record::{
    duplicate_all, duplicate_opt, duplicate_opt_all, or_else, pick, pick_all, settle, settled,
    view_opt, view_opt_all, views, Record,
};
use crate::server::OverrideField;

verus! {

/// What a text channel holds when it is also a voice channel.
#[derive(Clone, Copy, PartialEq, Eq, Structural, Debug)]
pub struct VoiceInformation {
    /// How many users may be in the voice channel at once.
    pub max_users: Option<u32>,
}

impl View for VoiceInformation {
    type V = VoiceInformation;

    open spec fn view(&self) -> VoiceInformation {
        *self
    }
}

impl Record for VoiceInformation {
    fn duplicate(&self) -> (r: Self) {
        *self
    }
}

/// The permissions that a channel gives to one role.
#[derive(Debug, PartialEq, Eq)]
pub struct RoleOverride {
    pub role: String,
    pub permissions: OverrideField,
}

/// What a role override stands for: the model that contracts speak of.
pub struct RoleOverrideView {
    pub role: Id,
    pub permissions: OverrideField,
}

impl View for RoleOverride {
    type V = RoleOverrideView;

    open spec fn view(&self) -> RoleOverrideView {
        RoleOverrideView { role: self.role@, permissions: self.permissions }
    }
}

impl Record for RoleOverride {
    fn duplicate(&self) -> (r: Self) {
        RoleOverride { role: self.role.clone(), permissions: self.permissions }
    }
}

/// A channel.
#[derive(Debug, PartialEq, Eq)]
#[allow(inconsistent_fields)]
pub enum Channel {
    /// A user's own notes.
    SavedMessages { id: String, user: String },
    /// A conversation between two users.
    DirectMessage {
        id: String,
        /// Whether the conversation is open on both sides.
        active: bool,
        recipients: Vec<String>,
        last_message_id: Option<String>,
    },
    /// A conversation among several users.
    Group {
        id: String,
        name: String,
        owner: String,
        description: Option<String>,
        recipients: Vec<String>,
        icon: Option<String>,
        last_message_id: Option<String>,
        /// What members other than the owner may do.
        permissions: Option<i64>,
        nsfw: bool,
    },
    /// A text channel of a server.
    TextChannel {
        id: String,
        server: String,
        name: String,
        description: Option<String>,
        icon: Option<String>,
        last_message_id: Option<String>,
        default_permissions: Option<OverrideField>,
        role_permissions: Vec<RoleOverride>,
        nsfw: bool,
        /// Present where the channel is also a voice channel.
        voice: Option<VoiceInformation>,
    },
    /// A voice channel of a server.
    VoiceChannel {
        id: String,
        server: String,
        name: String,
        description: Option<String>,
        icon: Option<String>,
        default_permissions: Option<OverrideField>,
        role_permissions: Vec<RoleOverride>,
        nsfw: bool,
    },
}

/// What a channel stands for: the model that contracts speak of.
#[allow(inconsistent_fields)]
pub enum ChannelView {
    SavedMessages { id: Id, user: Id },
    DirectMessage { id: Id, active: bool, recipients: Seq<Id>, last_message_id: Option<Id> },
    Group {
        id: Id,
        name: Seq<char>,
        owner: Id,
        description: Option<Seq<char>>,
        recipients: Seq<Id>,
        icon: Option<Seq<char>>,
        last_message_id: Option<Id>,
        permissions: Option<i64>,
        nsfw: bool,
    },
    TextChannel {
        id: Id,
        server: Id,
        name: Seq<char>,
        description: Option<Seq<char>>,
        icon: Option<Seq<char>>,
        last_message_id: Option<Id>,
        default_permissions: Option<OverrideField>,
        role_permissions: Seq<RoleOverrideView>,
        nsfw: bool,
        voice: Option<VoiceInformation>,
    },
    VoiceChannel {
        id: Id,
        server: Id,
        name: Seq<char>,
        description: Option<Seq<char>>,
        icon: Option<Seq<char>>,
        default_permissions: Option<OverrideField>,
        role_permissions: Seq<RoleOverrideView>,
        nsfw: bool,
    },
}

impl View for Channel {
    type V = ChannelView;

    open spec fn view(&self) -> ChannelView {
        match self {
            Channel::SavedMessages { id, user } => ChannelView::SavedMessages {
                id: id@,
                user: user@,
            },
            Channel::DirectMessage { id, active, recipients, last_message_id } => {
                ChannelView::DirectMessage {
                    id: id@,
                    active: *active,
                    recipients: views(recipients@),
                    last_message_id: view_opt(*last_message_id),
                }
            },
            Channel::Group {
                id,
                name,
                owner,
                description,
                recipients,
                icon,
                last_message_id,
                permissions,
                nsfw,
            } => ChannelView::Group {
                id: id@,
                name: name@,
                owner: owner@,
                description: view_opt(*description),
                recipients: views(recipients@),
                icon: view_opt(*icon),
                last_message_id: view_opt(*last_message_id),
                permissions: *permissions,
                nsfw: *nsfw,
            },
            Channel::TextChannel {
                id,
                server,
                name,
                description,
                icon,
                last_message_id,
                default_permissions,
                role_permissions,
                nsfw,
                voice,
            } => ChannelView::TextChannel {
                id: id@,
                server: server@,
                name: name@,
                description: view_opt(*description),
                icon: view_opt(*icon),
                last_message_id: view_opt(*last_message_id),
                default_permissions: *default_permissions,
                role_permissions: views(role_permissions@),
                nsfw: *nsfw,
                voice: *voice,
            },
            Channel::VoiceChannel {
                id,
                server,
                name,
                description,
                icon,
                default_permissions,
                role_permissions,
                nsfw,
            } => ChannelView::VoiceChannel {
                id: id@,
                server: server@,
                name: name@,
                description: view_opt(*description),
                icon: view_opt(*icon),
                default_permissions: *default_permissions,
                role_permissions: views(role_permissions@),
                nsfw: *nsfw,
            },
        }
    }
}

impl Record for Channel {
    fn duplicate(&self) -> (r: Self) {
        match self {
            Channel::SavedMessages { id, user } => Channel::SavedMessages {
                id: id.clone(),
                user: user.clone(),
            },
            Channel::DirectMessage { id, active, recipients, last_message_id } => {
                Channel::DirectMessage {
                    id: id.clone(),
                    active: *active,
                    recipients: duplicate_all(recipients),
                    last_message_id: duplicate_opt(last_message_id),
                }
            },
            Channel::Group {
                id,
                name,
                owner,
                description,
                recipients,
                icon,
                last_message_id,
                permissions,
                nsfw,
            } => Channel::Group {
                id: id.clone(),
                name: name.clone(),
                owner: owner.clone(),
                description: duplicate_opt(description),
                recipients: duplicate_all(recipients),
                icon: duplicate_opt(icon),
                last_message_id: duplicate_opt(last_message_id),
                permissions: *permissions,
                nsfw: *nsfw,
            },
            Channel::TextChannel {
                id,
                server,
                name,
                description,
                icon,
                last_message_id,
                default_permissions,
                role_permissions,
                nsfw,
                voice,
            } => Channel::TextChannel {
                id: id.clone(),
                server: server.clone(),
                name: name.clone(),
                description: duplicate_opt(description),
                icon: duplicate_opt(icon),
                last_message_id: duplicate_opt(last_message_id),
                default_permissions: *default_permissions,
                role_permissions: duplicate_all(role_permissions),
                nsfw: *nsfw,
                voice: *voice,
            },
            Channel::VoiceChannel {
                id,
                server,
                name,
                description,
                icon,
                default_permissions,
                role_permissions,
                nsfw,
            } => Channel::VoiceChannel {
                id: id.clone(),
                server: server.clone(),
                name: name.clone(),
                description: duplicate_opt(description),
                icon: duplicate_opt(icon),
                default_permissions: *default_permissions,
                role_permissions: duplicate_all(role_permissions),
                nsfw: *nsfw,
            },
        }
    }
}

/// Changes to a channel; a field that is `None` stays as it is, and so does a
/// field that the channel's variant does not have.
#[derive(Debug, PartialEq, Eq)]
pub struct PartialChannel {
    pub name: Option<String>,
    pub owner: Option<String>,
    pub description: Option<String>,
    pub icon: Option<String>,
    pub nsfw: Option<bool>,
    pub active: Option<bool>,
    pub permissions: Option<i64>,
    pub role_permissions: Option<Vec<RoleOverride>>,
    pub default_permissions: Option<OverrideField>,
    pub last_message_id: Option<String>,
}

/// What changes to a channel stands for: the model that contracts speak of.
pub struct PartialChannelView {
    pub name: Option<Seq<char>>,
    pub owner: Option<Id>,
    pub description: Option<Seq<char>>,
    pub icon: Option<Seq<char>>,
    pub nsfw: Option<bool>,
    pub active: Option<bool>,
    pub permissions: Option<i64>,
    pub role_permissions: Option<Seq<RoleOverrideView>>,
    pub default_permissions: Option<OverrideField>,
    pub last_message_id: Option<Id>,
}

impl View for PartialChannel {
    type V = PartialChannelView;

    open spec fn view(&self) -> PartialChannelView {
        PartialChannelView {
            name: view_opt(self.name),
            owner: view_opt(self.owner),
            description: view_opt(self.description),
            icon: view_opt(self.icon),
            nsfw: self.nsfw,
            active: self.active,
            permissions: self.permissions,
            role_permissions: view_opt_all(self.role_permissions),
            default_permissions: self.default_permissions,
            last_message_id: view_opt(self.last_message_id),
        }
    }
}

impl Record for PartialChannel {
    fn duplicate(&self) -> (r: Self) {
        PartialChannel {
            name: duplicate_opt(&self.name),
            owner: duplicate_opt(&self.owner),
            description: duplicate_opt(&self.description),
            icon: duplicate_opt(&self.icon),
            nsfw: self.nsfw,
            active: self.active,
            permissions: self.permissions,
            role_permissions: duplicate_opt_all(&self.role_permissions),
            default_permissions: self.default_permissions,
            last_message_id: duplicate_opt(&self.last_message_id),
        }
    }
}

/// The optional fields of a channel that an update can clear.
#[derive(Clone, Copy, PartialEq, Eq, Structural, Debug)]
pub enum FieldsChannel {
    Description,
    Icon,
    DefaultPermissions,
}

/// Whether `field` is among `clear`.
pub fn clears_channel_field(clear: &Vec<FieldsChannel>, field: FieldsChannel) -> (r: bool)
    ensures
        r == clear@.contains(field),
{
    let mut i: usize = 0;
    while i < clear.len()
        invariant
            i <= clear.len(),
            !clear@.take(i as int).contains(field),
        decreases clear.len() - i,
    {
        if clear[i] == field {
            return true;
        }
        assert(clear@.take(i + 1) =~= clear@.take(i as int).push(clear@[i as int]));
        i += 1;
    }
    assert(clear@.take(clear.len() as int) =~= clear@);
    false
}

impl ChannelView {
    /// The channel's identifier.
    pub open spec fn id(self) -> Id {
        match self {
            ChannelView::SavedMessages { id, .. } => id,
            ChannelView::DirectMessage { id, .. } => id,
            ChannelView::Group { id, .. } => id,
            ChannelView::TextChannel { id, .. } => id,
            ChannelView::VoiceChannel { id, .. } => id,
        }
    }

    /// The server that the channel belongs to, if it belongs to one.
    pub open spec fn server(self) -> Option<Id> {
        match self {
            ChannelView::TextChannel { server, .. } => Some(server),
            ChannelView::VoiceChannel { server, .. } => Some(server),
            _ => None,
        }
    }

    /// Those who take part in a direct message or a group; nobody elsewhere.
    pub open spec fn recipients(self) -> Seq<Id> {
        match self {
            ChannelView::DirectMessage { recipients, .. } => recipients,
            ChannelView::Group { recipients, .. } => recipients,
            _ => Seq::empty(),
        }
    }

    /// Whether the channel can carry voice.
    pub open spec fn is_voice_capable(self) -> bool {
        match self {
            ChannelView::DirectMessage { .. } => true,
            ChannelView::Group { .. } => true,
            ChannelView::VoiceChannel { .. } => true,
            ChannelView::TextChannel { voice, .. } => voice is Some,
            ChannelView::SavedMessages { .. } => false,
        }
    }

    /// The channel after an update that clears the fields of `clear` and then
    /// sets those that `data` holds, as far as the variant has them.
    pub open spec fn updated(self, data: PartialChannelView, clear: Seq<FieldsChannel>) -> ChannelView {
        let no_description = clear.contains(FieldsChannel::Description);
        let no_icon = clear.contains(FieldsChannel::Icon);
        let no_default = clear.contains(FieldsChannel::DefaultPermissions);
        match self {
            ChannelView::SavedMessages { .. } => self,
            ChannelView::DirectMessage { id, active, recipients, last_message_id } => {
                ChannelView::DirectMessage {
                    id,
                    active: or_else(data.active, active),
                    recipients,
                    last_message_id: settled(last_message_id, false, data.last_message_id),
                }
            },
            ChannelView::Group {
                id,
                name,
                owner,
                description,
                recipients,
                icon,
                last_message_id,
                permissions,
                nsfw,
            } => ChannelView::Group {
                id,
                name: or_else(data.name, name),
                owner: or_else(data.owner, owner),
                description: settled(description, no_description, data.description),
                recipients,
                icon: settled(icon, no_icon, data.icon),
                last_message_id: settled(last_message_id, false, data.last_message_id),
                permissions: settled(permissions, false, data.permissions),
                nsfw: or_else(data.nsfw, nsfw),
            },
            ChannelView::TextChannel {
                id,
                server,
                name,
                description,
                icon,
                last_message_id,
                default_permissions,
                role_permissions,
                nsfw,
                voice,
            } => ChannelView::TextChannel {
                id,
                server,
                name: or_else(data.name, name),
                description: settled(description, no_description, data.description),
                icon: settled(icon, no_icon, data.icon),
                last_message_id: settled(last_message_id, false, data.last_message_id),
                default_permissions: settled(
                    default_permissions,
                    no_default,
                    data.default_permissions,
                ),
                role_permissions: or_else(data.role_permissions, role_permissions),
                nsfw: or_else(data.nsfw, nsfw),
                voice,
            },
            ChannelView::VoiceChannel {
                id,
                server,
                name,
                description,
                icon,
                default_permissions,
                role_permissions,
                nsfw,
            } => ChannelView::VoiceChannel {
                id,
                server,
                name: or_else(data.name, name),
                description: settled(description, no_description, data.description),
                icon: settled(icon, no_icon, data.icon),
                default_permissions: settled(
                    default_permissions,
                    no_default,
                    data.default_permissions,
                ),
                role_permissions: or_else(data.role_permissions, role_permissions),
                nsfw: or_else(data.nsfw, nsfw),
            },
        }
    }
}

impl Channel {
    /// The channel's identifier.
    pub fn id(&self) -> (r: &str)
        ensures
            r@ == self@.id(),
    {
        match self {
            Channel::DirectMessage { id, .. }
            | Channel::Group { id, .. }
            | Channel::SavedMessages { id, .. }
            | Channel::TextChannel { id, .. }
            | Channel::VoiceChannel { id, .. } => id.as_str(),
        }
    }

    /// The server that the channel belongs to, if it belongs to one.
    pub fn server(&self) -> (r: Option<&str>)
        ensures
            match r {
                Some(s) => self@.server() == Some(s@),
                None => self@.server() is None,
            },
    {
        match self {
            Channel::TextChannel { server, .. } | Channel::VoiceChannel { server, .. } => Some(
                server.as_str(),
            ),
            _ => None,
        }
    }

    /// Those who take part in this direct message or group.
    pub fn recipients(&self) -> (r: Option<&Vec<String>>)
        ensures
            match r {
                Some(list) => views(list@) == self@.recipients(),
                None => self@.recipients() == Seq::<Id>::empty(),
            },
    {
        match self {
            Channel::DirectMessage { recipients, .. } | Channel::Group { recipients, .. } => Some(
                recipients,
            ),
            _ => None,
        }
    }

    /// Whether the channel can carry voice: a direct message or a group, in
    /// which a call can be held, a voice channel, or a text channel that
    /// holds voice information.
    pub fn is_voice_capable(&self) -> (r: bool)
        ensures
            r == self@.is_voice_capable(),
    {
        match self {
            Channel::DirectMessage { .. } | Channel::Group { .. } | Channel::VoiceChannel { .. } => {
                true
            },
            Channel::TextChannel { voice, .. } => voice.is_some(),
            Channel::SavedMessages { .. } => false,
        }
    }

    /// Whether `user` takes part in this direct message or group.
    pub fn has_recipient(&self, user: &str) -> (r: bool)
        ensures
            r == self@.recipients().contains(user@),
    {
        match self {
            Channel::DirectMessage { recipients, .. } | Channel::Group { recipients, .. } => {
                find_id(recipients, user).is_some()
            },
            _ => {
                assert(!Seq::<Id>::empty().contains(user@));
                false
            },
        }
    }

    /// The channel after an update.
    pub fn updated(&self, data: &PartialChannel, clear: &Vec<FieldsChannel>) -> (r: Channel)
        ensures
            r@ == self@.updated(data@, clear@),
    {
        let no_description = clears_channel_field(clear, FieldsChannel::Description);
        let no_icon = clears_channel_field(clear, FieldsChannel::Icon);
        let no_default = clears_channel_field(clear, FieldsChannel::DefaultPermissions);
        match self {
            Channel::SavedMessages { .. } => self.duplicate(),
            Channel::DirectMessage { id, active, recipients, last_message_id } => {
                Channel::DirectMessage {
                    id: id.clone(),
                    active: pick(&data.active, active),
                    recipients: duplicate_all(recipients),
                    last_message_id: settle(last_message_id, false, &data.last_message_id),
                }
            },
            Channel::Group {
                id,
                name,
                owner,
                description,
                recipients,
                icon,
                last_message_id,
                permissions,
                nsfw,
            } => Channel::Group {
                id: id.clone(),
                name: pick(&data.name, name),
                owner: pick(&data.owner, owner),
                description: settle(description, no_description, &data.description),
                recipients: duplicate_all(recipients),
                icon: settle(icon, no_icon, &data.icon),
                last_message_id: settle(last_message_id, false, &data.last_message_id),
                permissions: settle(permissions, false, &data.permissions),
                nsfw: pick(&data.nsfw, nsfw),
            },
            Channel::TextChannel {
                id,
                server,
                name,
                description,
                icon,
                last_message_id,
                default_permissions,
                role_permissions,
                nsfw,
                voice,
            } => Channel::TextChannel {
                id: id.clone(),
                server: server.clone(),
                name: pick(&data.name, name),
                description: settle(description, no_description, &data.description),
                icon: settle(icon, no_icon, &data.icon),
                last_message_id: settle(last_message_id, false, &data.last_message_id),
                default_permissions: settle(
                    default_permissions,
                    no_default,
                    &data.default_permissions,
                ),
                role_permissions: pick_all(&data.role_permissions, role_permissions),
                nsfw: pick(&data.nsfw, nsfw),
                voice: *voice,
            },
            Channel::VoiceChannel {
                id,
                server,
                name,
                description,
                icon,
                default_permissions,
                role_permissions,
                nsfw,
            } => Channel::VoiceChannel {
                id: id.clone(),
                server: server.clone(),
                name: pick(&data.name, name),
                description: settle(description, no_description, &data.description),
                icon: settle(icon, no_icon, &data.icon),
                default_permissions: settle(
                    default_permissions,
                    no_default,
                    &data.default_permissions,
                ),
                role_permissions: pick_all(&data.role_permissions, role_permissions),
                nsfw: pick(&data.nsfw, nsfw),
            },
        }
    }
}

} // verus!
