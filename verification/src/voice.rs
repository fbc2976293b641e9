//! Voice states: who is connected to a voice channel, and how.

use vstd::prelude::*;
use crate::channel::Channel;
use crate::ids::Id;
use crate::record::{duplicate_all, view_opt, views, Record};
use crate::state::State;

verus! {

/// How one user is connected to a voice channel.
#[derive(Debug, PartialEq, Eq)]
pub struct UserVoiceState {
    pub id: String,
    pub is_receiving: bool,
    pub is_publishing: bool,
    pub screensharing: bool,
    pub camera: bool,
}

/// What a user's voice state stands for: the model that contracts speak of.
pub struct UserVoiceStateView {
    pub id: Id,
    pub is_receiving: bool,
    pub is_publishing: bool,
    pub screensharing: bool,
    pub camera: bool,
}

impl View for UserVoiceState {
    type V = UserVoiceStateView;

    open spec fn view(&self) -> UserVoiceStateView {
        UserVoiceStateView {
            id: self.id@,
            is_receiving: self.is_receiving,
            is_publishing: self.is_publishing,
            screensharing: self.screensharing,
            camera: self.camera,
        }
    }
}

impl Record for UserVoiceState {
    fn duplicate(&self) -> (r: Self) {
        UserVoiceState {
            id: self.id.clone(),
            is_receiving: self.is_receiving,
            is_publishing: self.is_publishing,
            screensharing: self.screensharing,
            camera: self.camera,
        }
    }
}

/// Those connected to one voice channel.
#[derive(Debug, PartialEq, Eq)]
pub struct ChannelVoiceState {
    pub id: String,
    pub participants: Vec<UserVoiceState>,
}

/// What a channel's voice state stands for: the model that contracts speak of.
pub struct ChannelVoiceStateView {
    pub id: Id,
    pub participants: Seq<UserVoiceStateView>,
}

impl View for ChannelVoiceState {
    type V = ChannelVoiceStateView;

    open spec fn view(&self) -> ChannelVoiceStateView {
        ChannelVoiceStateView { id: self.id@, participants: views(self.participants@) }
    }
}

impl Record for ChannelVoiceState {
    fn duplicate(&self) -> (r: Self) {
        ChannelVoiceState { id: self.id.clone(), participants: duplicate_all(&self.participants) }
    }
}

/// What the voice store holds of one member of a voice channel: the voice
/// state recorded for them, if any.
#[derive(Debug, PartialEq, Eq)]
pub struct VoiceLookup {
    pub user: String,
    pub state: Option<UserVoiceState>,
}

/// What a lookup in the voice store stands for: the model that contracts speak of.
pub struct VoiceLookupView {
    pub user: Id,
    pub state: Option<UserVoiceStateView>,
}

impl View for VoiceLookup {
    type V = VoiceLookupView;

    open spec fn view(&self) -> VoiceLookupView {
        VoiceLookupView { user: self.user@, state: view_opt(self.state) }
    }
}

/// What the reconciling of one voice channel gives: the voice state to
/// report, if anybody is connected, and the members to delete from the voice
/// store because no voice state is recorded for them.
#[derive(Debug, PartialEq, Eq)]
pub struct VoiceRepair {
    pub state: Option<ChannelVoiceState>,
    pub dangling: Vec<String>,
}

/// The voice states that were found, in the order of the members.
pub open spec fn connected(found: Seq<VoiceLookupView>) -> Seq<UserVoiceStateView>
    decreases found.len(),
{
    if found.len() == 0 {
        Seq::empty()
    } else {
        let before = connected(found.drop_last());
        match found.last().state {
            Some(state) => before.push(state),
            None => before,
        }
    }
}

/// The members for whom no voice state was found, in order.
pub open spec fn dangling(found: Seq<VoiceLookupView>) -> Seq<Id>
    decreases found.len(),
{
    if found.len() == 0 {
        Seq::empty()
    } else {
        let before = dangling(found.drop_last());
        match found.last().state {
            Some(_) => before,
            None => before.push(found.last().user),
        }
    }
}

/// The voice state to report for the channel `id`: none where nobody is
/// connected.
pub open spec fn reported(id: Id, found: Seq<VoiceLookupView>) -> Option<ChannelVoiceStateView> {
    if connected(found).len() == 0 {
        None
    } else {
        Some(ChannelVoiceStateView { id, participants: connected(found) })
    }
}

impl State {
    /// Reconciles the members that the voice store lists for `channel` with
    /// the voice states it holds for them. A member without a voice state is
    /// not reported but handed back to be deleted from the store.
    pub fn fetch_voice_state(&self, channel: &Channel, found: Vec<VoiceLookup>) -> (r: VoiceRepair)
        ensures
            view_opt(r.state) == reported(channel@.id(), views(found@)),
            views(r.dangling@) == dangling(views(found@)),
    {
        let mut participants: Vec<UserVoiceState> = Vec::new();
        let mut gone: Vec<String> = Vec::new();
        let mut i: usize = 0;
        assert(views(found@).take(0) =~= Seq::<VoiceLookupView>::empty());
        assert(views(participants@) =~= Seq::<UserVoiceStateView>::empty());
        assert(views(gone@) =~= Seq::<Id>::empty());
        while i < found.len()
            invariant
                i <= found.len(),
                views(participants@) == connected(views(found@).take(i as int)),
                views(gone@) == dangling(views(found@).take(i as int)),
            decreases found.len() - i,
        {
            let ghost participants_before = participants@;
            let ghost gone_before = gone@;
            proof {
                let all = views(found@);
                assert(all.take(i + 1).drop_last() =~= all.take(i as int));
                assert(all.take(i + 1).last() == found[i as int]@);
            }
            match &found[i].state {
                Some(state) => {
                    participants.push(state.duplicate());
                    assert(views(participants@) =~= views(participants_before).push(state@));
                },
                None => {
                    gone.push(found[i].user.clone());
                    assert(views(gone@) =~= views(gone_before).push(found[i as int].user@));
                },
            }
            i += 1;
        }
        assert(views(found@).take(found.len() as int) =~= views(found@));
        let state = if participants.len() == 0 {
            None
        } else {
            Some(ChannelVoiceState { id: channel.id().to_owned(), participants })
        };
        VoiceRepair { state, dangling: gone }
    }
}

} // verus!
