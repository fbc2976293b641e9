use bonfire::channel::{Channel, FieldsChannel, PartialChannel};
use bonfire::event::EventV1;
use bonfire::member::{FieldsMember, Member, MemberCompositeKey, PartialMember};
use bonfire::record::Record;
use bonfire::server::{
    FieldsRole, FieldsServer, OverrideField, PartialRole, PartialServer, Role, RoleEntry, Server,
};
use bonfire::state::{State, SubscriptionChange};
use bonfire::step::{Pending, Progress, Reply, Request};
use bonfire::user::{
    FieldsUser, PartialUser, Relationship, RelationshipStatus, User,
};

fn text(id: &str, server: &str) -> Channel {
    Channel::TextChannel {
        id: id.to_string(),
        server: server.to_string(),
        name: format!("name of {id}"),
        description: None,
        icon: None,
        last_message_id: None,
        default_permissions: None,
        role_permissions: vec![],
        nsfw: false,
        voice: None,
    }
}

fn direct(id: &str, a: &str, b: &str) -> Channel {
    Channel::DirectMessage {
        id: id.to_string(),
        active: true,
        recipients: vec![a.to_string(), b.to_string()],
        last_message_id: None,
    }
}

fn server(id: &str, channels: &[&str]) -> Server {
    Server {
        id: id.to_string(),
        owner: "owner".to_string(),
        name: format!("server {id}"),
        description: None,
        channels: channels.iter().map(|c| c.to_string()).collect(),
        roles: vec![RoleEntry {
            id: "R1".to_string(),
            role: Role {
                name: "mods".to_string(),
                permissions: OverrideField { a: 1, d: 0 },
                colour: None,
                hoist: false,
                rank: 3,
            },
        }],
        default_permissions: 0,
        icon: None,
        banner: None,
    }
}

fn user(id: &str) -> User {
    User {
        id: id.to_string(),
        username: format!("user {id}"),
        relations: vec![],
        relationship: RelationshipStatus::Unrelated,
        online: false,
        status: None,
    }
}

fn viewer() -> User {
    let mut me = user("U1");
    me.relationship = RelationshipStatus::User;
    me.relations = vec![
        Relationship { id: "F1".to_string(), status: RelationshipStatus::Friend },
        Relationship { id: "B1".to_string(), status: RelationshipStatus::Blocked },
    ];
    me
}

fn fresh() -> State {
    State::new(viewer(), "U1!session".to_string(), 4)
}

fn no_channel_changes() -> PartialChannel {
    PartialChannel {
        name: None,
        owner: None,
        description: None,
        icon: None,
        nsfw: None,
        active: None,
        permissions: None,
        role_permissions: None,
        default_permissions: None,
        last_message_id: None,
    }
}

fn no_server_changes() -> PartialServer {
    PartialServer {
        owner: None,
        name: None,
        description: None,
        channels: None,
        default_permissions: None,
        icon: None,
        banner: None,
    }
}

/// Serves the state machine: the viewer may view every channel but those of
/// `hidden`, and the database holds `stored`; it fails where `down` is set.
fn serve(
    state: &mut State,
    event: EventV1,
    hidden: &[&str],
    stored: &[Channel],
    down: bool,
) -> (bool, EventV1, Vec<String>) {
    let mut asked = vec![];
    let mut progress = state.handle_incoming_event_v1(event);
    loop {
        match progress {
            Progress::Done { forward, event } => return (forward, event, asked),
            Progress::Ask { request, pending } => {
                let reply = match request {
                    Request::Permissions(channels) => {
                        asked.push(format!(
                            "permissions:{}",
                            channels.iter().map(|c| c.id()).collect::<Vec<_>>().join(",")
                        ));
                        Reply::Permissions(
                            channels.iter().map(|c| !hidden.contains(&c.id())).collect(),
                        )
                    }
                    Request::FetchChannel(id) => {
                        asked.push(format!("fetch:{id}"));
                        if down {
                            Reply::Channel(None)
                        } else {
                            Reply::Channel(
                                stored.iter().find(|c| c.id() == id).map(|c| c.duplicate()),
                            )
                        }
                    }
                    Request::FetchChannels(ids) => {
                        asked.push(format!("fetch:{}", ids.join(",")));
                        if down {
                            Reply::Channels(None)
                        } else {
                            Reply::Channels(Some(
                                stored
                                    .iter()
                                    .filter(|c| ids.iter().any(|id| id == c.id()))
                                    .map(|c| c.duplicate())
                                    .collect(),
                            ))
                        }
                    }
                };
                progress = state.resume(pending, reply);
            }
        }
    }
}

fn topics(state: &State) -> Vec<String> {
    let mut all: Vec<String> =
        (0..state.subscribed.len()).map(|i| state.subscribed.get(i).clone()).collect();
    all.sort();
    all
}

fn sorted(list: &[&str]) -> Vec<String> {
    let mut all: Vec<String> = list.iter().map(|t| t.to_string()).collect();
    all.sort();
    all
}

/// A state that knows server `S1` with the channels `C1`, `C2`, `C3`, all of
/// them visible, and is subscribed to them.
fn at_home() -> State {
    let mut state = fresh();
    let event = EventV1::ServerCreate {
        id: "S1".to_string(),
        server: server("S1", &["C1", "C2", "C3"]),
        channels: vec![text("C1", "S1"), text("C2", "S1"), text("C3", "S1")],
        emojis: vec![],
    };
    let (forward, _, _) = serve(&mut state, event, &[], &[], false);
    assert!(forward);
    state
}

#[test]
fn a_new_state_knows_its_user_and_two_topics() {
    let state = fresh();
    assert_eq!(topics(&state), sorted(&["U1", "U1!session"]));
    assert_eq!(state.cache.user_id, "U1");
    assert_eq!(state.cache.users.len(), 1);
    assert_eq!(state.cache.channels.len(), 0);
    assert_eq!(state.cache.servers.len(), 0);
    assert_eq!(state.cache.members.len(), 0);
    assert_eq!(state.cache.seen_events.len(), 0);
    assert_eq!(state.clone_user(), viewer());
}

#[test]
fn channel_create_caches_and_subscribes() {
    let mut state = fresh();
    let event = EventV1::ChannelCreate(text("C9", "S9"));
    let (forward, out, asked) = serve(&mut state, event, &[], &[], false);
    assert!(forward);
    assert_eq!(out, EventV1::ChannelCreate(text("C9", "S9")));
    assert!(asked.is_empty());
    assert_eq!(state.cache.channels.get("C9"), Some(&text("C9", "S9")));
    assert_eq!(topics(&state), sorted(&["U1", "U1!session", "C9"]));
}

#[test]
fn channel_delete_forgets_and_unsubscribes() {
    let mut state = at_home();
    let event = EventV1::ChannelDelete { id: "C2".to_string() };
    let (forward, out, _) = serve(&mut state, event, &[], &[], false);
    assert!(forward);
    assert_eq!(out, EventV1::ChannelDelete { id: "C2".to_string() });
    assert!(!state.cache.channels.contains_key("C2"));
    assert_eq!(state.cache.channels.len(), 2);
    assert_eq!(topics(&state), sorted(&["U1", "U1!session", "S1", "C1", "C3"]));
}

#[test]
fn user_update_with_the_same_event_id_is_forwarded_once() {
    let mut state = fresh();
    let update = || EventV1::UserUpdate {
        id: "F1".to_string(),
        data: PartialUser { username: None, status: None, online: Some(true) },
        clear: vec![FieldsUser::StatusText],
        event_id: Some("E1".to_string()),
    };
    let (first, out, _) = serve(&mut state, update(), &[], &[], false);
    assert!(first);
    assert_eq!(
        out,
        EventV1::UserUpdate {
            id: "F1".to_string(),
            data: PartialUser { username: None, status: None, online: Some(true) },
            clear: vec![FieldsUser::StatusText],
            event_id: None,
        }
    );
    assert_eq!(state.cache.seen_events.len(), 1);
    assert!(state.cache.seen_events.contains("E1"));
    let before = topics(&state);

    let (second, same, _) = serve(&mut state, update(), &[], &[], false);
    assert!(!second);
    assert_eq!(same, update());
    assert_eq!(state.cache.seen_events.len(), 1);
    assert_eq!(topics(&state), before);
    assert_eq!(state.cache.users.len(), 1);
}

#[test]
fn user_update_without_event_id_is_always_forwarded() {
    let mut state = fresh();
    let update = || EventV1::UserUpdate {
        id: "F1".to_string(),
        data: PartialUser { username: Some("n".to_string()), status: None, online: None },
        clear: vec![],
        event_id: None,
    };
    for _ in 0..3 {
        let (forward, out, _) = serve(&mut state, update(), &[], &[], false);
        assert!(forward);
        assert_eq!(out, update());
    }
    assert_eq!(state.cache.seen_events.len(), 0);
}

#[test]
fn user_update_is_forwarded_again_once_its_id_is_forgotten() {
    let mut state = fresh();
    let update = |event: &str| EventV1::UserUpdate {
        id: "F1".to_string(),
        data: PartialUser { username: None, status: None, online: Some(false) },
        clear: vec![],
        event_id: Some(event.to_string()),
    };
    for event in ["E1", "E2", "E3", "E4", "E5"] {
        assert!(serve(&mut state, update(event), &[], &[], false).0);
    }
    assert_eq!(state.cache.seen_events.len(), 4);
    assert!(!serve(&mut state, update("E5"), &[], &[], false).0);
    assert!(!serve(&mut state, update("E2"), &[], &[], false).0);
    assert!(serve(&mut state, update("E1"), &[], &[], false).0);
}

#[test]
fn update_that_hides_a_channel_becomes_a_deletion() {
    let mut state = at_home();
    let mut data = no_channel_changes();
    data.default_permissions = Some(OverrideField { a: 0, d: 1 });
    let event = EventV1::ChannelUpdate { id: "C1".to_string(), data, clear: vec![] };
    let mut progress = state.handle_incoming_event_v1(event);
    let mut answers = vec![true, false].into_iter();
    let (forward, out) = loop {
        match progress {
            Progress::Done { forward, event } => break (forward, event),
            Progress::Ask { request, pending } => {
                match &request {
                    Request::Permissions(channels) => {
                        assert_eq!(channels.len(), 1);
                        assert_eq!(channels[0].id(), "C1");
                    }
                    other => panic!("asked {other:?}"),
                }
                let answer = answers.next().unwrap();
                progress = state.resume(pending, Reply::Permissions(vec![answer]));
            }
        }
    };
    assert!(forward);
    assert_eq!(out, EventV1::ChannelDelete { id: "C1".to_string() });
    assert!(!state.subscribed.contains("C1"));
    assert_eq!(topics(&state), sorted(&["U1", "U1!session", "S1", "C2", "C3"]));
    match state.cache.channels.get("C1") {
        Some(Channel::TextChannel { default_permissions, .. }) => {
            assert_eq!(*default_permissions, Some(OverrideField { a: 0, d: 1 }))
        }
        other => panic!("cached {other:?}"),
    }
}

#[test]
fn update_that_shows_a_channel_becomes_a_creation() {
    let mut state = at_home();
    let hide = EventV1::ChannelUpdate {
        id: "C1".to_string(),
        data: no_channel_changes(),
        clear: vec![],
    };
    let mut progress = state.handle_incoming_event_v1(hide);
    let mut answers = vec![true, false].into_iter();
    while let Progress::Ask { pending, .. } = progress {
        progress = state.resume(pending, Reply::Permissions(vec![answers.next().unwrap()]));
    }
    assert!(!state.subscribed.contains("C1"));

    let mut data = no_channel_changes();
    data.name = Some("open again".to_string());
    let show = EventV1::ChannelUpdate {
        id: "C1".to_string(),
        data,
        clear: vec![FieldsChannel::DefaultPermissions],
    };
    let mut progress = state.handle_incoming_event_v1(show);
    let mut answers = vec![false, true].into_iter();
    let out = loop {
        match progress {
            Progress::Done { forward, event } => {
                assert!(forward);
                break event;
            }
            Progress::Ask { pending, .. } => {
                progress = state.resume(pending, Reply::Permissions(vec![answers.next().unwrap()]));
            }
        }
    };
    let mut expected = text("C1", "S1");
    if let Channel::TextChannel { name, .. } = &mut expected {
        *name = "open again".to_string();
    }
    assert_eq!(out, EventV1::ChannelCreate(expected));
    assert!(state.subscribed.contains("C1"));
    assert_eq!(topics(&state), sorted(&["U1", "U1!session", "S1", "C1", "C2", "C3"]));
}

#[test]
fn update_that_changes_no_visibility_is_forwarded_as_it_came() {
    let mut state = at_home();
    let mut data = no_channel_changes();
    data.name = Some("renamed".to_string());
    let event = || EventV1::ChannelUpdate {
        id: "C2".to_string(),
        data: {
            let mut data = no_channel_changes();
            data.name = Some("renamed".to_string());
            data
        },
        clear: vec![FieldsChannel::Icon],
    };
    let (forward, out, asked) = serve(&mut state, event(), &[], &[], false);
    assert!(forward);
    assert_eq!(out, event());
    assert_eq!(asked, vec!["permissions:C2".to_string(), "permissions:C2".to_string()]);
    assert_eq!(topics(&state), sorted(&["U1", "U1!session", "S1", "C1", "C2", "C3"]));
    match state.cache.channels.get("C2") {
        Some(Channel::TextChannel { name, .. }) => assert_eq!(name, "renamed"),
        other => panic!("cached {other:?}"),
    }
    assert_eq!(state.cache.channels.key_at(1), "C2");
    let _ = data;
}

#[test]
fn update_of_an_unknown_channel_fetches_it() {
    let mut state = fresh();
    let event = EventV1::ChannelUpdate {
        id: "C7".to_string(),
        data: no_channel_changes(),
        clear: vec![],
    };
    let (forward, out, asked) = serve(&mut state, event, &[], &[text("C7", "S7")], false);
    assert!(forward);
    assert_eq!(out, EventV1::ChannelCreate(text("C7", "S7")));
    assert_eq!(asked, vec!["fetch:C7".to_string(), "permissions:C7".to_string()]);
    assert_eq!(state.cache.channels.get("C7"), Some(&text("C7", "S7")));
    assert_eq!(topics(&state), sorted(&["U1", "U1!session", "C7"]));
}

#[test]
fn update_of_an_unknown_channel_that_cannot_be_fetched_changes_nothing() {
    let mut state = fresh();
    let event = || EventV1::ChannelUpdate {
        id: "C7".to_string(),
        data: no_channel_changes(),
        clear: vec![],
    };
    let (forward, out, asked) = serve(&mut state, event(), &[], &[text("C7", "S7")], true);
    assert!(forward);
    assert_eq!(out, event());
    assert_eq!(asked, vec!["fetch:C7".to_string()]);
    assert_eq!(state.cache.channels.len(), 0);
    assert_eq!(topics(&state), sorted(&["U1", "U1!session"]));
}

#[test]
fn update_of_an_unknown_hidden_channel_is_not_subscribed_to() {
    let mut state = fresh();
    let event = || EventV1::ChannelUpdate {
        id: "C7".to_string(),
        data: no_channel_changes(),
        clear: vec![],
    };
    let (forward, out, _) = serve(&mut state, event(), &["C7"], &[text("C7", "S7")], false);
    assert!(forward);
    assert_eq!(out, event());
    assert!(state.cache.channels.contains_key("C7"));
    assert_eq!(topics(&state), sorted(&["U1", "U1!session"]));
}

#[test]
fn update_of_a_direct_message_never_hides_it() {
    let mut state = fresh();
    serve(&mut state, EventV1::ChannelCreate(direct("D1", "U1", "U2")), &[], &[], false);
    let mut data = no_channel_changes();
    data.active = Some(false);
    let event = EventV1::ChannelUpdate { id: "D1".to_string(), data, clear: vec![] };
    let (forward, out, _) = serve(&mut state, event, &["D1"], &[], false);
    assert!(forward);
    assert!(matches!(out, EventV1::ChannelUpdate { .. }));
    assert!(state.subscribed.contains("D1"));
    match state.cache.channels.get("D1") {
        Some(Channel::DirectMessage { active, .. }) => assert!(!active),
        other => panic!("cached {other:?}"),
    }
}

#[test]
fn group_join_subscribes_to_the_user() {
    let mut state = fresh();
    let event = EventV1::ChannelGroupJoin { id: "G1".to_string(), user: "U5".to_string() };
    let (forward, out, _) = serve(&mut state, event, &[], &[], false);
    assert!(forward);
    assert_eq!(out, EventV1::ChannelGroupJoin { id: "G1".to_string(), user: "U5".to_string() });
    assert_eq!(topics(&state), sorted(&["U1", "U1!session", "U5"]));
}

#[test]
fn group_leave_of_the_viewer_unsubscribes_from_the_channel() {
    let mut state = fresh();
    serve(&mut state, EventV1::ChannelCreate(direct("G1", "U1", "U2")), &[], &[], false);
    assert!(state.subscribed.contains("G1"));
    let event = EventV1::ChannelGroupLeave { id: "G1".to_string(), user: "U1".to_string() };
    let (forward, _, _) = serve(&mut state, event, &[], &[], false);
    assert!(forward);
    assert!(!state.subscribed.contains("G1"));
    assert!(state.subscribed.contains("U1"));
}

#[test]
fn group_leave_of_another_unsubscribes_only_where_nothing_is_shared() {
    let mut state = fresh();
    serve(&mut state, EventV1::ChannelCreate(direct("D1", "U1", "U2")), &[], &[], false);
    for who in ["U2", "U3", "F1", "B1"] {
        let join = EventV1::ChannelGroupJoin { id: "G1".to_string(), user: who.to_string() };
        serve(&mut state, join, &[], &[], false);
    }
    for who in ["U2", "U3", "F1", "B1"] {
        let leave = EventV1::ChannelGroupLeave { id: "G1".to_string(), user: who.to_string() };
        assert!(serve(&mut state, leave, &[], &[], false).0);
    }
    assert!(state.subscribed.contains("U2"));
    assert!(!state.subscribed.contains("U3"));
    assert!(state.subscribed.contains("F1"));
    assert!(!state.subscribed.contains("B1"));
}

#[test]
fn server_create_caches_the_server_with_an_empty_membership() {
    let state = at_home();
    assert_eq!(state.cache.servers.get("S1"), Some(&server("S1", &["C1", "C2", "C3"])));
    assert_eq!(
        state.cache.members.get("S1"),
        Some(&Member::new("S1".to_string(), "U1".to_string()))
    );
    assert_eq!(state.cache.channels.len(), 3);
    assert_eq!(topics(&state), sorted(&["U1", "U1!session", "S1", "C1", "C2", "C3"]));
}

#[test]
fn server_create_drops_what_the_viewer_may_not_view() {
    let mut state = fresh();
    let event = || EventV1::ServerCreate {
        id: "S1".to_string(),
        server: server("S1", &["C1", "C2"]),
        channels: vec![text("C1", "S1"), text("C2", "S1")],
        emojis: vec![],
    };
    let (forward, out, asked) = serve(&mut state, event(), &["C2"], &[], false);
    assert!(forward);
    assert_eq!(
        out,
        EventV1::Bulk { v: vec![EventV1::ChannelDelete { id: "C2".to_string() }, event()] }
    );
    assert_eq!(asked, vec!["permissions:C1,C2".to_string()]);
    assert!(state.cache.channels.contains_key("C1"));
    assert!(!state.cache.channels.contains_key("C2"));
    assert_eq!(topics(&state), sorted(&["U1", "U1!session", "S1", "C1"]));
}

#[test]
fn leaving_a_server_with_three_channels_leaves_nothing_of_it() {
    let mut state = at_home();
    serve(&mut state, EventV1::ChannelCreate(text("X1", "S2")), &[], &[], false);
    let event = EventV1::ServerMemberLeave { id: "S1".to_string(), user: "U1".to_string() };
    let (forward, out, asked) = serve(&mut state, event, &[], &[], false);
    assert!(forward);
    assert_eq!(out, EventV1::ServerMemberLeave { id: "S1".to_string(), user: "U1".to_string() });
    assert!(asked.is_empty());
    assert_eq!(topics(&state), sorted(&["U1", "U1!session", "X1"]));
    assert_eq!(state.cache.servers.len(), 0);
    assert_eq!(state.cache.members.len(), 0);
    assert_eq!(state.cache.channels.len(), 1);
    assert!(state.cache.channels.contains_key("X1"));
}

#[test]
fn another_member_leaving_changes_nothing() {
    let mut state = at_home();
    let event = EventV1::ServerMemberLeave { id: "S1".to_string(), user: "U2".to_string() };
    assert!(serve(&mut state, event, &[], &[], false).0);
    assert_eq!(state.cache.servers.len(), 1);
    assert_eq!(state.cache.channels.len(), 3);
    assert_eq!(topics(&state), sorted(&["U1", "U1!session", "S1", "C1", "C2", "C3"]));
}

#[test]
fn server_delete_leaves_nothing_of_the_server() {
    let mut state = at_home();
    let event = EventV1::ServerDelete { id: "S1".to_string() };
    assert!(serve(&mut state, event, &[], &[], false).0);
    assert_eq!(topics(&state), sorted(&["U1", "U1!session"]));
    assert_eq!(state.cache.servers.len(), 0);
    assert_eq!(state.cache.members.len(), 0);
    assert_eq!(state.cache.channels.len(), 0);
}

#[test]
fn server_delete_of_an_unknown_server_unsubscribes_only() {
    let mut state = at_home();
    state.insert_subscription("S9".to_string());
    let event = EventV1::ServerDelete { id: "S9".to_string() };
    assert!(serve(&mut state, event, &[], &[], false).0);
    assert_eq!(topics(&state), sorted(&["U1", "U1!session", "S1", "C1", "C2", "C3"]));
    assert_eq!(state.cache.servers.len(), 1);
}

#[test]
fn server_update_without_new_permissions_asks_nothing() {
    let mut state = at_home();
    let mut data = no_server_changes();
    data.name = Some("renamed".to_string());
    let event = EventV1::ServerUpdate {
        id: "S1".to_string(),
        data,
        clear: vec![FieldsServer::Banner],
    };
    let (forward, out, asked) = serve(&mut state, event, &["C1"], &[], false);
    assert!(forward);
    assert!(matches!(out, EventV1::ServerUpdate { .. }));
    assert!(asked.is_empty());
    assert_eq!(state.cache.servers.get("S1").unwrap().name, "renamed");
    assert_eq!(state.cache.channels.len(), 3);
}

#[test]
fn server_update_with_new_permissions_recalculates() {
    let mut state = at_home();
    let event = || {
        let mut data = no_server_changes();
        data.default_permissions = Some(0);
        EventV1::ServerUpdate { id: "S1".to_string(), data, clear: vec![] }
    };
    let (forward, out, asked) = serve(&mut state, event(), &["C1", "C3"], &[], false);
    assert!(forward);
    assert_eq!(
        out,
        EventV1::Bulk {
            v: vec![
                EventV1::ChannelDelete { id: "C1".to_string() },
                EventV1::ChannelDelete { id: "C3".to_string() },
                event(),
            ]
        }
    );
    assert_eq!(asked, vec!["permissions:C1,C2,C3".to_string()]);
    assert_eq!(topics(&state), sorted(&["U1", "U1!session", "S1", "C2"]));
    assert_eq!(state.cache.channels.len(), 1);
}

#[test]
fn server_update_of_an_unknown_server_is_forwarded() {
    let mut state = fresh();
    let event = || {
        let mut data = no_server_changes();
        data.default_permissions = Some(0);
        EventV1::ServerUpdate { id: "S4".to_string(), data, clear: vec![] }
    };
    let (forward, out, asked) = serve(&mut state, event(), &[], &[], false);
    assert!(forward);
    assert_eq!(out, event());
    assert!(asked.is_empty());
    assert_eq!(state.cache.servers.len(), 0);
}

#[test]
fn recalculation_finds_the_one_channel_gained() {
    let mut state = at_home();
    let grow = {
        let mut data = no_server_changes();
        data.channels =
            Some(vec!["C1".to_string(), "C2".to_string(), "C3".to_string(), "C4".to_string()]);
        EventV1::ServerUpdate { id: "S1".to_string(), data, clear: vec![] }
    };
    assert!(serve(&mut state, grow, &[], &[], false).2.is_empty());
    assert_eq!(state.cache.channels.len(), 3);

    let trigger = || EventV1::ServerRoleDelete { id: "S1".to_string(), role_id: "R1".to_string() };
    let mut member = Member::new("S1".to_string(), "U1".to_string());
    member.roles = vec!["R1".to_string()];
    state.put_member("S1".to_string(), member);
    let (forward, out, asked) = serve(&mut state, trigger(), &[], &[text("C4", "S1")], false);
    assert!(forward);
    assert_eq!(
        out,
        EventV1::Bulk { v: vec![EventV1::ChannelCreate(text("C4", "S1")), trigger()] }
    );
    assert_eq!(
        asked,
        vec![
            "permissions:C1,C2,C3".to_string(),
            "fetch:C4".to_string(),
            "permissions:C4".to_string()
        ]
    );
    assert_eq!(state.cache.channels.len(), 4);
    assert_eq!(state.cache.channels.get("C4"), Some(&text("C4", "S1")));
    assert_eq!(topics(&state), sorted(&["U1", "U1!session", "S1", "C1", "C2", "C3", "C4"]));
    assert!(state.cache.servers.get("S1").unwrap().roles.is_empty());
}

#[test]
fn recalculation_puts_deletions_before_creations_before_the_event() {
    let mut state = at_home();
    let event = || {
        let mut data = no_server_changes();
        data.default_permissions = Some(5);
        data.channels = Some(vec![
            "C5".to_string(),
            "C1".to_string(),
            "C4".to_string(),
            "C5".to_string(),
            "C6".to_string(),
        ]);
        EventV1::ServerUpdate { id: "S1".to_string(), data, clear: vec![] }
    };
    let stored = [text("C4", "S1"), text("C5", "S1"), text("C6", "S1")];
    let (forward, out, asked) = serve(&mut state, event(), &["C2", "C6"], &stored, false);
    assert!(forward);
    assert_eq!(
        out,
        EventV1::Bulk {
            v: vec![
                EventV1::ChannelDelete { id: "C2".to_string() },
                EventV1::ChannelCreate(text("C4", "S1")),
                EventV1::ChannelCreate(text("C5", "S1")),
                event(),
            ]
        }
    );
    assert_eq!(
        asked,
        vec![
            "permissions:C1,C2,C3".to_string(),
            "fetch:C5,C4,C6".to_string(),
            "permissions:C4,C5,C6".to_string()
        ]
    );
    assert_eq!(topics(&state), sorted(&["U1", "U1!session", "S1", "C1", "C3", "C4", "C5"]));
    assert!(!state.cache.channels.contains_key("C6"));
}

#[test]
fn recalculation_goes_on_without_the_database() {
    let mut state = at_home();
    let event = || {
        let mut data = no_server_changes();
        data.default_permissions = Some(5);
        data.channels = Some(vec!["C1".to_string(), "C4".to_string()]);
        EventV1::ServerUpdate { id: "S1".to_string(), data, clear: vec![] }
    };
    let (forward, out, asked) = serve(&mut state, event(), &["C3"], &[text("C4", "S1")], true);
    assert!(forward);
    assert_eq!(
        out,
        EventV1::Bulk { v: vec![EventV1::ChannelDelete { id: "C3".to_string() }, event()] }
    );
    assert_eq!(asked, vec!["permissions:C1,C2,C3".to_string(), "fetch:C4".to_string()]);
    assert_eq!(topics(&state), sorted(&["U1", "U1!session", "S1", "C1", "C2"]));
    assert!(!state.cache.channels.contains_key("C4"));
}

#[test]
fn recalculation_that_finds_nothing_forwards_the_event_alone() {
    let mut state = at_home();
    let event = || {
        let mut data = no_server_changes();
        data.default_permissions = Some(5);
        EventV1::ServerUpdate { id: "S1".to_string(), data, clear: vec![] }
    };
    let (forward, out, _) = serve(&mut state, event(), &[], &[], false);
    assert!(forward);
    assert_eq!(out, event());
}

#[test]
fn recalculate_server_can_be_started_by_itself() {
    let mut state = at_home();
    let event = || EventV1::ChannelStartTyping { id: "C1".to_string(), user: "U2".to_string() };
    match state.recalculate_server("S9", event()) {
        Progress::Done { forward, event: out } => {
            assert!(forward);
            assert_eq!(out, event());
        }
        other => panic!("got {other:?}"),
    }
    match state.recalculate_server("S1", event()) {
        Progress::Ask { request, pending } => {
            assert_eq!(
                request,
                Request::Permissions(vec![text("C1", "S1"), text("C2", "S1"), text("C3", "S1")])
            );
            assert_eq!(
                pending,
                Pending::RecalcKnown {
                    server: "S1".to_string(),
                    known: vec!["C1".to_string(), "C2".to_string(), "C3".to_string()],
                    event: event(),
                }
            );
        }
        other => panic!("got {other:?}"),
    }
}

#[test]
fn a_reply_that_does_not_answer_counts_as_failure() {
    let mut state = at_home();
    let event = || EventV1::ChannelStartTyping { id: "C1".to_string(), user: "U2".to_string() };
    let pending = match state.recalculate_server("S1", event()) {
        Progress::Ask { pending, .. } => pending,
        other => panic!("got {other:?}"),
    };
    match state.resume(pending, Reply::Permissions(vec![false])) {
        Progress::Done { forward, event: out } => {
            assert!(forward);
            assert_eq!(out, event());
        }
        other => panic!("got {other:?}"),
    }
    assert_eq!(state.cache.channels.len(), 3);
    let pending = Pending::UpdateShown {
        id: "C1".to_string(),
        data: no_channel_changes(),
        clear: vec![],
        could_view: true,
    };
    match state.resume(pending, Reply::Channel(None)) {
        Progress::Done { forward, event: out } => {
            assert!(forward);
            assert!(matches!(out, EventV1::ChannelUpdate { .. }));
        }
        other => panic!("got {other:?}"),
    }
    assert!(state.subscribed.contains("C1"));
}

#[test]
fn member_update_of_the_viewer_with_roles_recalculates() {
    let mut state = at_home();
    let event = EventV1::ServerMemberUpdate {
        id: MemberCompositeKey { server: "S1".to_string(), user: "U1".to_string() },
        data: PartialMember {
            nickname: Some("nick".to_string()),
            avatar: None,
            roles: Some(vec!["R1".to_string()]),
            timeout: None,
        },
        clear: vec![],
    };
    let (forward, out, asked) = serve(&mut state, event, &["C2"], &[], false);
    assert!(forward);
    assert!(matches!(out, EventV1::Bulk { .. }));
    assert_eq!(asked, vec!["permissions:C1,C2,C3".to_string()]);
    let member = state.cache.members.get("S1").unwrap();
    assert_eq!(member.roles, vec!["R1".to_string()]);
    assert_eq!(member.nickname, Some("nick".to_string()));
    assert!(!state.subscribed.contains("C2"));
}

#[test]
fn member_update_that_clears_roles_recalculates() {
    let mut state = at_home();
    let event = EventV1::ServerMemberUpdate {
        id: MemberCompositeKey { server: "S1".to_string(), user: "U1".to_string() },
        data: PartialMember { nickname: None, avatar: None, roles: None, timeout: None },
        clear: vec![FieldsMember::Roles],
    };
    let (_, _, asked) = serve(&mut state, event, &[], &[], false);
    assert_eq!(asked, vec!["permissions:C1,C2,C3".to_string()]);
}

#[test]
fn member_update_without_roles_or_of_another_asks_nothing() {
    let mut state = at_home();
    let own = EventV1::ServerMemberUpdate {
        id: MemberCompositeKey { server: "S1".to_string(), user: "U1".to_string() },
        data: PartialMember {
            nickname: Some("nick".to_string()),
            avatar: None,
            roles: None,
            timeout: None,
        },
        clear: vec![FieldsMember::Avatar],
    };
    assert!(serve(&mut state, own, &["C1"], &[], false).2.is_empty());
    assert_eq!(state.cache.members.get("S1").unwrap().nickname, Some("nick".to_string()));
    let other = EventV1::ServerMemberUpdate {
        id: MemberCompositeKey { server: "S1".to_string(), user: "U2".to_string() },
        data: PartialMember {
            nickname: Some("other".to_string()),
            avatar: None,
            roles: Some(vec!["R1".to_string()]),
            timeout: None,
        },
        clear: vec![],
    };
    assert!(serve(&mut state, other, &["C1"], &[], false).2.is_empty());
    assert_eq!(state.cache.members.get("S1").unwrap().nickname, Some("nick".to_string()));
    assert!(state.cache.members.get("S1").unwrap().roles.is_empty());
    assert_eq!(state.cache.channels.len(), 3);
}

#[test]
fn role_update_recalculates_only_for_a_role_the_viewer_holds() {
    let mut state = at_home();
    let event = || EventV1::ServerRoleUpdate {
        id: "S1".to_string(),
        role_id: "R1".to_string(),
        data: PartialRole { name: None, permissions: None, colour: None, hoist: None, rank: Some(9) },
        clear: vec![FieldsRole::Colour],
    };
    let (forward, out, asked) = serve(&mut state, event(), &["C1"], &[], false);
    assert!(forward);
    assert_eq!(out, event());
    assert!(asked.is_empty());
    assert_eq!(state.cache.servers.get("S1").unwrap().roles[0].role.rank, 9);

    let mut member = Member::new("S1".to_string(), "U1".to_string());
    member.roles = vec!["R1".to_string()];
    state.put_member("S1".to_string(), member);
    let (_, out, asked) = serve(&mut state, event(), &["C1"], &[], false);
    assert_eq!(asked, vec!["permissions:C1,C2,C3".to_string()]);
    assert_eq!(
        out,
        EventV1::Bulk { v: vec![EventV1::ChannelDelete { id: "C1".to_string() }, event()] }
    );

    let renamed = EventV1::ServerRoleUpdate {
        id: "S1".to_string(),
        role_id: "R1".to_string(),
        data: PartialRole {
            name: Some("n".to_string()),
            permissions: None,
            colour: None,
            hoist: None,
            rank: None,
        },
        clear: vec![],
    };
    assert!(serve(&mut state, renamed, &["C2"], &[], false).2.is_empty());
    assert_eq!(state.cache.servers.get("S1").unwrap().roles[0].role.name, "n");
}

#[test]
fn role_delete_of_a_role_not_held_asks_nothing() {
    let mut state = at_home();
    let event = EventV1::ServerRoleDelete { id: "S1".to_string(), role_id: "R1".to_string() };
    let (forward, _, asked) = serve(&mut state, event, &["C1"], &[], false);
    assert!(forward);
    assert!(asked.is_empty());
    assert!(state.cache.servers.get("S1").unwrap().roles.is_empty());
    assert_eq!(state.cache.channels.len(), 3);
}

#[test]
fn relationship_change_subscribes_to_whom_the_viewer_follows() {
    let mut state = fresh();
    let mut friend = user("F1");
    friend.relationship = RelationshipStatus::Friend;
    let event = EventV1::UserRelationship { id: "F1".to_string(), user: friend };
    let (forward, _, _) = serve(&mut state, event, &[], &[], false);
    assert!(forward);
    assert!(state.subscribed.contains("F1"));
    assert_eq!(state.cache.users.get("F1").unwrap().relationship, RelationshipStatus::Friend);

    state.insert_subscription("B1".to_string());
    let event = EventV1::UserRelationship { id: "B1".to_string(), user: user("B1") };
    serve(&mut state, event, &[], &[], false);
    assert!(!state.subscribed.contains("B1"));
    assert!(state.cache.users.contains_key("B1"));

    serve(&mut state, EventV1::ChannelCreate(direct("D1", "U1", "B1")), &[], &[], false);
    let event = EventV1::UserRelationship { id: "B1".to_string(), user: user("B1") };
    serve(&mut state, event, &[], &[], false);
    assert!(state.subscribed.contains("B1"));
}

#[test]
fn can_subscribe_to_friends_and_recipients() {
    let mut state = fresh();
    assert!(state.cache.can_subscribe_to_user("U1"));
    assert!(state.cache.can_subscribe_to_user("F1"));
    assert!(!state.cache.can_subscribe_to_user("B1"));
    assert!(!state.cache.can_subscribe_to_user("U2"));
    serve(&mut state, EventV1::ChannelCreate(direct("D1", "U1", "U2")), &[], &[], false);
    assert!(state.cache.can_subscribe_to_user("U2"));
    serve(&mut state, EventV1::ChannelDelete { id: "D1".to_string() }, &[], &[], false);
    assert!(!state.cache.can_subscribe_to_user("U2"));
}

#[test]
fn other_events_pass_through() {
    let mut state = at_home();
    let before = topics(&state);
    let events = || {
        vec![
            EventV1::ChannelStartTyping { id: "C1".to_string(), user: "U2".to_string() },
            EventV1::ChannelAck {
                id: "C1".to_string(),
                user: "U1".to_string(),
                message_id: "M1".to_string(),
            },
            EventV1::ServerMemberJoin { id: "S1".to_string(), user: "U2".to_string() },
            EventV1::Bulk { v: vec![EventV1::ChannelDelete { id: "C1".to_string() }] },
            EventV1::Ready {
                users: vec![],
                servers: vec![],
                channels: vec![],
                members: vec![],
                emojis: vec![],
                voice_states: vec![],
            },
        ]
    };
    for (event, expected) in events().into_iter().zip(events()) {
        let (forward, out, asked) = serve(&mut state, event, &[], &[], false);
        assert!(forward);
        assert_eq!(out, expected);
        assert!(asked.is_empty());
    }
    assert_eq!(topics(&state), before);
    assert_eq!(state.cache.channels.len(), 3);
}

#[test]
fn subscriptions_follow_the_cache_through_a_run_of_events() {
    let mut state = at_home();
    state.resubscribe();
    assert_eq!(topics(&state), sorted(&["U1", "U1!session", "F1", "S1", "C1", "C2", "C3"]));
    let stored = [text("C4", "S1")];
    let run = vec![
        EventV1::ChannelCreate(text("X1", "S2")),
        EventV1::UserUpdate {
            id: "F1".to_string(),
            data: PartialUser { username: None, status: None, online: Some(true) },
            clear: vec![],
            event_id: Some("E1".to_string()),
        },
        {
            let mut data = no_server_changes();
            data.default_permissions = Some(1);
            data.channels = Some(vec!["C1".to_string(), "C4".to_string()]);
            EventV1::ServerUpdate { id: "S1".to_string(), data, clear: vec![] }
        },
        EventV1::ChannelDelete { id: "X1".to_string() },
        EventV1::ChannelUpdate {
            id: "C1".to_string(),
            data: no_channel_changes(),
            clear: vec![],
        },
        EventV1::ChannelStartTyping { id: "C1".to_string(), user: "U2".to_string() },
    ];
    for event in run {
        assert!(serve(&mut state, event, &["C3"], &stored, false).0);
        let mut derived = vec!["U1!session".to_string(), "U1".to_string()];
        for i in 0..state.cache.servers.len() {
            derived.push(state.cache.servers.key_at(i).clone());
        }
        for i in 0..state.cache.channels.len() {
            derived.push(state.cache.channels.key_at(i).clone());
        }
        for who in ["F1", "B1", "U2"] {
            if state.cache.can_subscribe_to_user(who) {
                derived.push(who.to_string());
            }
        }
        derived.sort();
        derived.dedup();
        assert_eq!(topics(&state), derived);
    }
    assert_eq!(topics(&state), sorted(&["U1", "U1!session", "F1", "S1", "C1", "C2", "C4"]));
}

#[test]
fn changes_of_the_subscriptions_since_an_earlier_moment() {
    let mut state = at_home();
    let before = state.topics();
    assert_eq!(
        before,
        vec![
            "U1!session".to_string(),
            "U1".to_string(),
            "S1".to_string(),
            "C1".to_string(),
            "C2".to_string(),
            "C3".to_string()
        ]
    );
    assert_eq!(state.changes_since(&before), SubscriptionChange { add: vec![], remove: vec![] });
    serve(&mut state, EventV1::ChannelCreate(text("X1", "S2")), &[], &[], false);
    serve(&mut state, EventV1::ChannelDelete { id: "C2".to_string() }, &[], &[], false);
    serve(&mut state, EventV1::ChannelDelete { id: "S1".to_string() }, &[], &[], false);
    serve(&mut state, EventV1::ChannelCreate(text("C3", "S1")), &[], &[], false);
    assert_eq!(
        state.changes_since(&before),
        SubscriptionChange {
            add: vec!["X1".to_string()],
            remove: vec!["S1".to_string(), "C2".to_string()],
        }
    );
    assert_eq!(
        state.changes_since(&vec![]),
        SubscriptionChange { add: state.topics(), remove: vec![] }
    );
}
