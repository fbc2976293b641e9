//! What passes between the state machine and the code that serves it: the
//! requests it makes of the outside, the replies it takes, and where it stands
//! while it waits.

use vstd::prelude::*;
use crate::channel::{Channel, ChannelView, FieldsChannel, PartialChannel, PartialChannelView};
use crate::event::{event_views, EventV1, EventView};
use crate::ids::Id;
use crate::record::{view_opt, view_opt_all, views};

verus! {

/// What the state machine asks of the outside.
#[derive(Debug, PartialEq, Eq)]
pub enum Request {
    /// For each channel, in order: does the permission engine let the viewer
    /// view it, going by the cache as it stands?
    Permissions(Vec<Channel>),
    /// The channel with this identifier, from the database.
    FetchChannel(String),
    /// The channels with these identifiers, from the database.
    FetchChannels(Vec<String>),
}

/// What a request stands for: the model that contracts speak of.
pub enum RequestView {
    Permissions(Seq<ChannelView>),
    FetchChannel(Id),
    FetchChannels(Seq<Id>),
}

impl View for Request {
    type V = RequestView;

    open spec fn view(&self) -> RequestView {
        match self {
            Request::Permissions(channels) => RequestView::Permissions(views(channels@)),
            Request::FetchChannel(id) => RequestView::FetchChannel(id@),
            Request::FetchChannels(ids) => RequestView::FetchChannels(views(ids@)),
        }
    }
}

/// What the outside answers.
#[derive(Debug, PartialEq, Eq)]
pub enum Reply {
    /// The permission engine's answers, one for each channel asked about.
    Permissions(Vec<bool>),
    /// The channel fetched, or nothing where the fetch failed.
    Channel(Option<Channel>),
    /// The channels fetched, or nothing where the fetch failed.
    Channels(Option<Vec<Channel>>),
}

/// What a reply stands for: the model that contracts speak of.
pub enum ReplyView {
    Permissions(Seq<bool>),
    Channel(Option<ChannelView>),
    Channels(Option<Seq<ChannelView>>),
}

impl View for Reply {
    type V = ReplyView;

    open spec fn view(&self) -> ReplyView {
        match self {
            Reply::Permissions(granted) => ReplyView::Permissions(granted@),
            Reply::Channel(channel) => ReplyView::Channel(view_opt(*channel)),
            Reply::Channels(channels) => ReplyView::Channels(view_opt_all(*channels)),
        }
    }
}

/// Where the handling of an event stands while a request is out.
#[derive(Debug, PartialEq, Eq)]
#[allow(inconsistent_fields)]
pub enum Pending {
    /// A cached channel is about to be updated; asked whether the viewer can
    /// view it as it is.
    UpdateSeen { id: String, data: PartialChannel, clear: Vec<FieldsChannel> },
    /// An update came for a channel that is not cached; asked for the channel.
    UpdateFetch { id: String, data: PartialChannel, clear: Vec<FieldsChannel> },
    /// The update is applied; asked whether the viewer can view the channel
    /// as it is now.
    UpdateShown { id: String, data: PartialChannel, clear: Vec<FieldsChannel>, could_view: bool },
    /// A server is recalculated; asked about the cached channels `known`.
    RecalcKnown { server: String, known: Vec<String>, event: EventV1 },
    /// Asked for the channels that the server declares and the cache lacks.
    RecalcFetch { bulk: Vec<EventV1>, event: EventV1 },
    /// Asked about the channels that were fetched.
    RecalcFetched { bulk: Vec<EventV1>, fetched: Vec<Channel>, event: EventV1 },
}

/// What a pending handling stands for: the model that contracts speak of.
#[allow(inconsistent_fields)]
pub enum PendingView {
    UpdateSeen { id: Id, data: PartialChannelView, clear: Seq<FieldsChannel> },
    UpdateFetch { id: Id, data: PartialChannelView, clear: Seq<FieldsChannel> },
    UpdateShown { id: Id, data: PartialChannelView, clear: Seq<FieldsChannel>, could_view: bool },
    RecalcKnown { server: Id, known: Seq<Id>, event: EventView },
    RecalcFetch { bulk: Seq<EventView>, event: EventView },
    RecalcFetched { bulk: Seq<EventView>, fetched: Seq<ChannelView>, event: EventView },
}

impl View for Pending {
    type V = PendingView;

    open spec fn view(&self) -> PendingView {
        match self {
            Pending::UpdateSeen { id, data, clear } => PendingView::UpdateSeen {
                id: id@,
                data: data@,
                clear: clear@,
            },
            Pending::UpdateFetch { id, data, clear } => PendingView::UpdateFetch {
                id: id@,
                data: data@,
                clear: clear@,
            },
            Pending::UpdateShown { id, data, clear, could_view } => PendingView::UpdateShown {
                id: id@,
                data: data@,
                clear: clear@,
                could_view: *could_view,
            },
            Pending::RecalcKnown { server, known, event } => PendingView::RecalcKnown {
                server: server@,
                known: views(known@),
                event: event@,
            },
            Pending::RecalcFetch { bulk, event } => PendingView::RecalcFetch {
                bulk: event_views(bulk@),
                event: event@,
            },
            Pending::RecalcFetched { bulk, fetched, event } => PendingView::RecalcFetched {
                bulk: event_views(bulk@),
                fetched: views(fetched@),
                event: event@,
            },
        }
    }
}

/// How far the handling of an event has come.
#[derive(Debug, PartialEq, Eq)]
pub enum Progress {
    /// The event is handled: whether to forward it to the client, and the
    /// event to forward, which may differ from the one that came.
    Done { forward: bool, event: EventV1 },
    /// The handling goes on once `request` is answered.
    Ask { request: Request, pending: Pending },
}

/// What a progress stands for: the model that contracts speak of.
pub enum ProgressView {
    Done { forward: bool, event: EventView },
    Ask { request: RequestView, pending: PendingView },
}

impl View for Progress {
    type V = ProgressView;

    open spec fn view(&self) -> ProgressView {
        match self {
            Progress::Done { forward, event } => ProgressView::Done {
                forward: *forward,
                event: event@,
            },
            Progress::Ask { request, pending } => ProgressView::Ask {
                request: request@,
                pending: pending@,
            },
        }
    }
}

} // verus!
