use bonfire::cache::Cache;
use bonfire::channel::{Channel, VoiceInformation};
use bonfire::event::{Emoji, EventV1};
use bonfire::member::Member;
use bonfire::presence::EVENT_ID_LEN;
use bonfire::ready::{candidates, gather, ReadyParts};
use bonfire::server::Server;
use bonfire::state::State;
use bonfire::user::{
    PartialUser, Presence, Relationship, RelationshipStatus, User, UserStatus,
};
use bonfire::voice::{ChannelVoiceState, UserVoiceState, VoiceLookup};

fn text(id: &str, server: &str) -> Channel {
    Channel::TextChannel {
        id: id.to_string(),
        server: server.to_string(),
        name: format!("name of {id}"),
        description: None,
        icon: None,
        last_message_id: None,
        default_permissions: None,
        role_permissions: vec![],
        nsfw: false,
        voice: None,
    }
}

fn direct(id: &str, a: &str, b: &str) -> Channel {
    Channel::DirectMessage {
        id: id.to_string(),
        active: true,
        recipients: vec![a.to_string(), b.to_string()],
        last_message_id: None,
    }
}

fn server(id: &str, channels: &[&str]) -> Server {
    Server {
        id: id.to_string(),
        owner: "owner".to_string(),
        name: format!("server {id}"),
        description: None,
        channels: channels.iter().map(|c| c.to_string()).collect(),
        roles: vec![],
        default_permissions: 0,
        icon: None,
        banner: None,
    }
}

fn user(id: &str) -> User {
    User {
        id: id.to_string(),
        username: format!("user {id}"),
        relations: vec![],
        relationship: RelationshipStatus::Unrelated,
        online: false,
        status: None,
    }
}

fn voice_state(id: &str) -> UserVoiceState {
    UserVoiceState {
        id: id.to_string(),
        is_receiving: true,
        is_publishing: false,
        screensharing: false,
        camera: false,
    }
}

fn topics(state: &State) -> Vec<String> {
    let mut all: Vec<String> =
        (0..state.subscribed.len()).map(|i| state.subscribed.get(i).clone()).collect();
    all.sort();
    all
}

fn sorted(list: &[&str]) -> Vec<String> {
    let mut all: Vec<String> = list.iter().map(|t| t.to_string()).collect();
    all.sort();
    all
}

#[test]
fn fresh_connection_with_one_server_and_one_direct_message() {
    let mut state = State::new(user("U1"), "private".to_string(), 8);
    let members = vec![Member::new("S1".to_string(), "U1".to_string())];
    let servers = vec![server("S1", &["C1", "C2"])];

    assert_eq!(state.stage_memberships(&members), vec!["S1".to_string()]);
    assert_eq!(state.stage_servers(&servers), vec!["C1".to_string(), "C2".to_string()]);
    assert_eq!(state.cache.members.get("S1"), Some(&members[0]));
    assert_eq!(state.cache.servers.get("S1"), Some(&servers[0]));

    let channels = vec![direct("D1", "U1", "U2"), text("C1", "S1"), text("C2", "S1")];
    let granted: Vec<bool> = channels
        .iter()
        .map(|channel| match state.cache.permission_context(channel) {
            Some(context) => {
                assert_eq!(context.user.id, "U1");
                assert_eq!(context.member, Some(&members[0]));
                assert_eq!(context.server, Some(&servers[0]));
                context.channel.id() != "C2"
            }
            None => true,
        })
        .collect();
    assert_eq!(granted, vec![true, true, false]);
    assert_eq!(state.ready_users(&channels, &granted), vec!["U2".to_string()]);

    let payload = state.generate_ready_payload(ReadyParts {
        members: vec![Member::new("S1".to_string(), "U1".to_string())],
        servers: vec![server("S1", &["C1", "C2"])],
        channels,
        granted,
        users: vec![user("U2")],
        online: vec!["U2".to_string()],
        emojis: vec![Emoji {
            id: "E1".to_string(),
            parent: "S1".to_string(),
            name: "wave".to_string(),
        }],
        voice_states: vec![],
    });

    let mut other = user("U2");
    other.online = true;
    let mut me = user("U1");
    me.relationship = RelationshipStatus::User;
    me.online = true;
    assert_eq!(
        payload,
        EventV1::Ready {
            users: vec![other, me],
            servers: vec![server("S1", &["C1", "C2"])],
            channels: vec![direct("D1", "U1", "U2"), text("C1", "S1")],
            members: vec![Member::new("S1".to_string(), "U1".to_string())],
            emojis: vec![Emoji {
                id: "E1".to_string(),
                parent: "S1".to_string(),
                name: "wave".to_string(),
            }],
            voice_states: vec![],
        }
    );
    assert_eq!(topics(&state), sorted(&["private", "U1", "S1", "C1", "D1", "U2"]));
    assert!(!state.subscribed.contains("C2"));
    assert!(!state.cache.channels.contains_key("C2"));
    assert_eq!(state.cache.channels.len(), 2);
    assert_eq!(state.cache.users.len(), 2);
    assert!(state.cache.users.get("U2").unwrap().online);
    assert_eq!(state.cache.servers.len(), 1);
    assert_eq!(state.cache.members.len(), 1);
}

#[test]
fn snapshot_follows_friends_and_pending_but_not_blocked_users() {
    let mut viewer = user("U1");
    viewer.relations = vec![
        Relationship { id: "F1".to_string(), status: RelationshipStatus::Friend },
        Relationship { id: "I1".to_string(), status: RelationshipStatus::Incoming },
        Relationship { id: "O1".to_string(), status: RelationshipStatus::Outgoing },
        Relationship { id: "B1".to_string(), status: RelationshipStatus::Blocked },
        Relationship { id: "B2".to_string(), status: RelationshipStatus::BlockedOther },
    ];
    let mut state = State::new(viewer, "private".to_string(), 8);
    let channels = vec![direct("D1", "U1", "B2")];
    let granted = vec![true];
    assert_eq!(
        state.ready_users(&channels, &granted),
        vec![
            "F1".to_string(),
            "I1".to_string(),
            "O1".to_string(),
            "B1".to_string(),
            "B2".to_string()
        ]
    );
    let payload = state.generate_ready_payload(ReadyParts {
        members: vec![],
        servers: vec![],
        channels,
        granted,
        users: vec![user("F1"), user("B1"), user("B2")],
        online: vec!["F1".to_string(), "B1".to_string()],
        emojis: vec![],
        voice_states: vec![],
    });
    assert_eq!(topics(&state), sorted(&["private", "U1", "F1", "I1", "O1", "B2", "D1"]));
    match payload {
        EventV1::Ready { users, channels, .. } => {
            assert_eq!(users.len(), 4);
            assert_eq!(users[0].id, "F1");
            assert_eq!(users[0].relationship, RelationshipStatus::Friend);
            assert!(users[0].online);
            assert_eq!(users[1].id, "B1");
            assert_eq!(users[1].relationship, RelationshipStatus::Blocked);
            assert!(!users[1].online);
            assert_eq!(users[2].relationship, RelationshipStatus::BlockedOther);
            assert_eq!(users[3].id, "U1");
            assert_eq!(users[3].relations.len(), 5);
            assert_eq!(channels.len(), 1);
        }
        other => panic!("got {other:?}"),
    }
}

#[test]
fn snapshot_replaces_what_was_cached_and_subscribed() {
    let mut state = State::new(user("U1"), "private".to_string(), 8);
    state.put_channel("OLD".to_string(), text("OLD", "S0"));
    state.put_server("S0".to_string(), server("S0", &["OLD"]));
    state.put_member("S0".to_string(), Member::new("S0".to_string(), "U1".to_string()));
    state.put_user("U9".to_string(), user("U9"));
    state.insert_subscription("OLD".to_string());
    state.insert_subscription("S0".to_string());
    state.cache.seen_events.insert("E1".to_string());
    state.generate_ready_payload(ReadyParts {
        members: vec![],
        servers: vec![server("S1", &[])],
        channels: vec![text("C1", "S1")],
        granted: vec![true],
        users: vec![],
        online: vec![],
        emojis: vec![],
        voice_states: vec![],
    });
    assert_eq!(topics(&state), sorted(&["private", "U1", "S1", "C1"]));
    assert!(!state.cache.channels.contains_key("OLD"));
    assert!(!state.cache.servers.contains_key("S0"));
    assert!(!state.cache.users.contains_key("U9"));
    assert_eq!(state.cache.members.len(), 0);
    assert!(state.cache.seen_events.contains("E1"));
}

#[test]
fn snapshot_with_answers_that_do_not_fit_keeps_no_channel() {
    let mut state = State::new(user("U1"), "private".to_string(), 8);
    let payload = state.generate_ready_payload(ReadyParts {
        members: vec![],
        servers: vec![],
        channels: vec![direct("D1", "U1", "U2"), text("C1", "S1")],
        granted: vec![true],
        users: vec![],
        online: vec![],
        emojis: vec![],
        voice_states: vec![],
    });
    match payload {
        EventV1::Ready { channels, .. } => assert!(channels.is_empty()),
        other => panic!("got {other:?}"),
    }
    assert_eq!(topics(&state), sorted(&["private", "U1"]));
}

#[test]
fn snapshot_attaches_the_voice_states_of_cached_voice_channels() {
    let mut state = State::new(user("U1"), "private".to_string(), 8);
    let mut with_voice = text("V1", "S1");
    if let Channel::TextChannel { voice, .. } = &mut with_voice {
        *voice = Some(VoiceInformation { max_users: None });
    }
    let of = |id: &str| ChannelVoiceState {
        id: id.to_string(),
        participants: vec![voice_state("U2")],
    };
    let payload = state.generate_ready_payload(ReadyParts {
        members: vec![],
        servers: vec![],
        channels: vec![with_voice, text("C1", "S1"), text("V2", "S1"), direct("D1", "U1", "U2")],
        granted: vec![true, true, false, true],
        users: vec![],
        online: vec![],
        emojis: vec![],
        voice_states: vec![of("V1"), of("C1"), of("V2"), of("V9"), of("D1")],
    });
    match payload {
        EventV1::Ready { voice_states, .. } => assert_eq!(voice_states, vec![of("V1"), of("D1")]),
        other => panic!("got {other:?}"),
    }
}

#[test]
fn filtering_keeps_what_is_visible_in_order() {
    let cache = Cache::new(user("U1"), 2);
    let channels =
        vec![text("C1", "S1"), direct("D1", "U1", "U2"), text("C2", "S1"), text("C3", "S1")];
    let kept = cache.filter_accessible_channels(channels, &vec![false, false, true, false]);
    assert_eq!(kept, vec![direct("D1", "U1", "U2"), text("C2", "S1")]);
    assert!(cache.can_view_channel(&direct("D1", "U1", "U2"), false));
    assert!(!cache.can_view_channel(&text("C1", "S1"), false));
    assert!(cache.can_view_channel(&text("C1", "S1"), true));
    assert!(cache.permission_context(&direct("D1", "U1", "U2")).is_none());
    let unknown = text("C1", "S1");
    let context = cache.permission_context(&unknown).unwrap();
    assert!(context.member.is_none());
    assert!(context.server.is_none());
    assert_eq!(context.channel, &unknown);
}

#[test]
fn candidates_are_gathered_once_each_in_order() {
    let mut viewer = user("U1");
    viewer.relations = vec![
        Relationship { id: "F1".to_string(), status: RelationshipStatus::Friend },
        Relationship { id: "U1".to_string(), status: RelationshipStatus::Unrelated },
        Relationship { id: "F1".to_string(), status: RelationshipStatus::Blocked },
    ];
    let channels = vec![direct("D1", "U1", "U2"), text("C1", "S1"), direct("D2", "F1", "U3")];
    assert_eq!(
        candidates(&viewer, &channels),
        vec!["U1".to_string(), "F1".to_string(), "U2".to_string(), "U3".to_string()]
    );
    let mut acc = vec!["a".to_string()];
    gather(&mut acc, &vec!["b".to_string(), "a".to_string(), "b".to_string(), "c".to_string()]);
    assert_eq!(acc, vec!["a".to_string(), "b".to_string(), "c".to_string()]);
}

#[test]
fn a_member_without_voice_state_is_handed_back_and_nobody_reported() {
    let state = State::new(user("U1"), "private".to_string(), 8);
    let channel = text("V1", "S1");
    let repair = state
        .fetch_voice_state(&channel, vec![VoiceLookup { user: "U2".to_string(), state: None }]);
    assert_eq!(repair.state, None);
    assert_eq!(repair.dangling, vec!["U2".to_string()]);
}

#[test]
fn voice_states_are_reported_in_order_without_the_dangling() {
    let state = State::new(user("U1"), "private".to_string(), 8);
    let mut channel = text("V1", "S1");
    if let Channel::TextChannel { voice, .. } = &mut channel {
        *voice = Some(VoiceInformation { max_users: None });
    }
    let repair = state.fetch_voice_state(
        &channel,
        vec![
            VoiceLookup { user: "U2".to_string(), state: Some(voice_state("U2")) },
            VoiceLookup { user: "U3".to_string(), state: None },
            VoiceLookup { user: "U4".to_string(), state: Some(voice_state("U4")) },
            VoiceLookup { user: "U5".to_string(), state: None },
        ],
    );
    assert_eq!(
        repair.state,
        Some(ChannelVoiceState {
            id: "V1".to_string(),
            participants: vec![voice_state("U2"), voice_state("U4")],
        })
    );
    assert_eq!(repair.dangling, vec!["U3".to_string(), "U5".to_string()]);
}

#[test]
fn a_voice_channel_without_members_reports_nothing() {
    let state = State::new(user("U1"), "private".to_string(), 8);
    let repair = state.fetch_voice_state(&text("V1", "S1"), vec![]);
    assert_eq!(repair.state, None);
    assert!(repair.dangling.is_empty());
}

#[test]
fn presence_goes_to_every_server_and_the_viewer() {
    let mut state = State::new(user("U1"), "private".to_string(), 8);
    state.put_server("S1".to_string(), server("S1", &[]));
    state.put_server("S2".to_string(), server("S2", &[]));
    let broadcast = state.presence_change(true, "01ARZ3NDEKTSV4RRFFQ69G5FAV".to_string()).unwrap();
    assert_eq!(broadcast.topics, vec!["S1".to_string(), "S2".to_string(), "U1".to_string()]);
    assert_eq!(
        broadcast.event,
        EventV1::UserUpdate {
            id: "U1".to_string(),
            data: PartialUser { username: None, status: None, online: Some(true) },
            clear: vec![],
            event_id: Some("01ARZ3NDEKTSV4RRFFQ69G5FAV".to_string()),
        }
    );
}

#[test]
fn presence_of_an_invisible_viewer_is_not_told() {
    let mut viewer = user("U1");
    viewer.status = Some(UserStatus { text: None, presence: Some(Presence::Invisible) });
    let state = State::new(viewer, "private".to_string(), 8);
    assert!(state.presence_change(true, "E".to_string()).is_none());
    assert!(state.broadcast_presence_change(false).is_none());
}

#[test]
fn presence_broadcast_carries_a_fresh_event_id() {
    let state = State::new(user("U1"), "private".to_string(), 8);
    let first = state.broadcast_presence_change(false).unwrap();
    let second = state.broadcast_presence_change(false).unwrap();
    assert_eq!(first.topics, vec!["U1".to_string()]);
    let id_of = |event: &EventV1| match event {
        EventV1::UserUpdate { id, data, clear, event_id } => {
            assert_eq!(id, "U1");
            assert_eq!(data.online, Some(false));
            assert!(clear.is_empty());
            event_id.clone().unwrap()
        }
        other => panic!("got {other:?}"),
    };
    let (a, b) = (id_of(&first.event), id_of(&second.event));
    assert_eq!(a.chars().count(), EVENT_ID_LEN);
    assert_eq!(b.chars().count(), EVENT_ID_LEN);
    assert!(a.chars().all(|c| "0123456789ABCDEFGHJKMNPQRSTVWXYZ".contains(c)));
    assert_ne!(a, b);
}

#[test]
fn a_broadcast_event_id_dedups_on_arrival() {
    let mut state = State::new(user("U1"), "private".to_string(), 8);
    let broadcast = state.broadcast_presence_change(true).unwrap();
    let again = state.presence_change(true, match &broadcast.event {
        EventV1::UserUpdate { event_id, .. } => event_id.clone().unwrap(),
        other => panic!("got {other:?}"),
    });
    let first = state.handle_incoming_event_v1(broadcast.event);
    let second = state.handle_incoming_event_v1(again.unwrap().event);
    match (first, second) {
        (
            bonfire::step::Progress::Done { forward: true, .. },
            bonfire::step::Progress::Done { forward: false, .. },
        ) => {}
        other => panic!("got {other:?}"),
    }
}
