use bonfire::ack::{AckBoard, AckEvent, Task};
use bonfire::channel::{Channel, FieldsChannel, PartialChannel, RoleOverride, VoiceInformation};
use bonfire::ids::{find_id, lacking, same_id, IdSet};
use bonfire::member::{FieldsMember, Member, PartialMember};
use bonfire::moderation::{check_ban_rank, check_ban_target, BanRefusal};
use bonfire::recent::SeenEvents;
use bonfire::record::Record;
use bonfire::server::{
    FieldsRole, FieldsServer, OverrideField, PartialRole, PartialServer, Role, RoleEntry, Server,
};
use bonfire::server_members::ChunkedServerMembersGenerator;
use bonfire::table::Table;
use bonfire::user::{Presence, Relationship, RelationshipStatus, User, UserStatus};

fn text(id: &str, server: &str) -> Channel {
    Channel::TextChannel {
        id: id.to_string(),
        server: server.to_string(),
        name: format!("name of {id}"),
        description: Some("about".to_string()),
        icon: Some("icon".to_string()),
        last_message_id: None,
        default_permissions: Some(OverrideField { a: 1, d: 2 }),
        role_permissions: vec![],
        nsfw: false,
        voice: None,
    }
}

fn no_changes() -> PartialChannel {
    PartialChannel {
        name: None,
        owner: None,
        description: None,
        icon: None,
        nsfw: None,
        active: None,
        permissions: None,
        role_permissions: None,
        default_permissions: None,
        last_message_id: None,
    }
}

fn plain_user(id: &str) -> User {
    User {
        id: id.to_string(),
        username: format!("user {id}"),
        relations: vec![],
        relationship: RelationshipStatus::Unrelated,
        online: false,
        status: None,
    }
}

#[test]
fn identifiers_compare_by_text() {
    assert!(same_id("01ABC", "01ABC"));
    assert!(!same_id("01ABC", "01ABD"));
    assert!(!same_id("01ABC", "01AB"));
    assert!(same_id("", ""));
    let list = vec!["a".to_string(), "b".to_string(), "a".to_string()];
    assert_eq!(find_id(&list, "a"), Some(0));
    assert_eq!(find_id(&list, "b"), Some(1));
    assert_eq!(find_id(&list, "c"), None);
}

#[test]
fn id_set_keeps_each_member_once_in_order() {
    let mut set = IdSet::new();
    assert!(set.insert("x".to_string()));
    assert!(set.insert("y".to_string()));
    assert!(!set.insert("x".to_string()));
    assert_eq!(set.len(), 2);
    assert_eq!(set.get(0), "x");
    assert_eq!(set.get(1), "y");
    assert!(set.contains("y"));
    assert!(set.remove("x"));
    assert!(!set.remove("x"));
    assert_eq!(set.len(), 1);
    assert_eq!(set.get(0), "y");
    set.clear();
    assert_eq!(set.len(), 0);
    assert!(!set.contains("y"));
}

#[test]
fn table_replaces_in_place_and_removes_in_order() {
    let mut table: Table<Channel> = Table::new();
    table.insert("a".to_string(), text("a", "S"));
    table.insert("b".to_string(), text("b", "S"));
    table.insert("c".to_string(), text("c", "S"));
    table.insert("a".to_string(), text("a", "T"));
    assert_eq!(table.len(), 3);
    assert_eq!(table.key_at(0), "a");
    assert_eq!(table.get("a").unwrap().server(), Some("T"));
    assert_eq!(table.position("c"), Some(2));
    let gone = table.remove("b");
    assert_eq!(gone.unwrap().id(), "b");
    assert!(table.remove("b").is_none());
    assert_eq!(table.len(), 2);
    assert_eq!(table.key_at(0), "a");
    assert_eq!(table.key_at(1), "c");
    assert_eq!(table.value_at(1).id(), "c");
    assert!(!table.contains_key("b"));
    assert!(table.get("b").is_none());
}

#[test]
fn table_from_lists_lets_the_later_value_win() {
    let keys = vec!["a".to_string(), "b".to_string(), "a".to_string()];
    let values = vec![text("a", "S1"), text("b", "S1"), text("a", "S2")];
    let table = Table::from_lists(&keys, &values);
    assert_eq!(table.len(), 2);
    assert_eq!(table.key_at(0), "a");
    assert_eq!(table.key_at(1), "b");
    assert_eq!(table.get("a").unwrap().server(), Some("S2"));
}

#[test]
fn seen_events_evicts_the_oldest_when_full() {
    let mut seen = SeenEvents::new(3);
    seen.insert("e1".to_string());
    seen.insert("e2".to_string());
    seen.insert("e3".to_string());
    assert_eq!(seen.len(), 3);
    seen.insert("e4".to_string());
    assert_eq!(seen.len(), 3);
    assert!(!seen.contains("e1"));
    assert!(seen.contains("e2"));
    assert!(seen.contains("e3"));
    assert!(seen.contains("e4"));
}

#[test]
fn seen_events_recording_again_makes_newest() {
    let mut seen = SeenEvents::new(2);
    seen.insert("e1".to_string());
    seen.insert("e2".to_string());
    seen.insert("e1".to_string());
    assert_eq!(seen.len(), 2);
    seen.insert("e3".to_string());
    assert!(seen.contains("e1"));
    assert!(!seen.contains("e2"));
    assert!(seen.contains("e3"));
}

#[test]
fn seen_events_of_one_place() {
    let mut seen = SeenEvents::new(1);
    seen.insert("e1".to_string());
    seen.insert("e2".to_string());
    assert_eq!(seen.len(), 1);
    assert!(seen.contains("e2"));
    assert!(!seen.contains("e1"));
}

#[test]
fn channel_id_of_every_variant() {
    let saved = Channel::SavedMessages { id: "C0".to_string(), user: "U1".to_string() };
    let direct = Channel::DirectMessage {
        id: "D1".to_string(),
        active: true,
        recipients: vec!["U1".to_string(), "U2".to_string()],
        last_message_id: None,
    };
    let group = Channel::Group {
        id: "G1".to_string(),
        name: "g".to_string(),
        owner: "U1".to_string(),
        description: None,
        recipients: vec!["U1".to_string()],
        icon: None,
        last_message_id: None,
        permissions: None,
        nsfw: false,
    };
    let voice = Channel::VoiceChannel {
        id: "V1".to_string(),
        server: "S1".to_string(),
        name: "v".to_string(),
        description: None,
        icon: None,
        default_permissions: None,
        role_permissions: vec![],
        nsfw: false,
    };
    assert_eq!(saved.id(), "C0");
    assert_eq!(direct.id(), "D1");
    assert_eq!(group.id(), "G1");
    assert_eq!(text("C1", "S1").id(), "C1");
    assert_eq!(voice.id(), "V1");
    assert_eq!(saved.server(), None);
    assert_eq!(direct.server(), None);
    assert_eq!(voice.server(), Some("S1"));
    assert!(direct.has_recipient("U2"));
    assert!(!direct.has_recipient("U3"));
    assert!(!voice.has_recipient("U1"));
    assert!(voice.is_voice_capable());
    assert!(direct.is_voice_capable());
    assert!(group.is_voice_capable());
    assert!(!text("C1", "S1").is_voice_capable());
    assert!(!saved.is_voice_capable());
}

#[test]
fn text_channel_with_voice_information_is_voice_capable() {
    let mut channel = text("C1", "S1");
    if let Channel::TextChannel { voice, .. } = &mut channel {
        *voice = Some(VoiceInformation { max_users: Some(4) });
    }
    assert!(channel.is_voice_capable());
    let copy = channel.duplicate();
    assert!(copy.is_voice_capable());
    assert_eq!(copy.id(), "C1");
}

#[test]
fn channel_update_sets_and_clears() {
    let channel = text("C1", "S1");
    let mut data = no_changes();
    data.name = Some("renamed".to_string());
    data.nsfw = Some(true);
    data.owner = Some("ignored".to_string());
    data.role_permissions =
        Some(vec![RoleOverride { role: "R1".to_string(), permissions: OverrideField { a: 4, d: 0 } }]);
    let updated =
        channel.updated(&data, &vec![FieldsChannel::Description, FieldsChannel::DefaultPermissions]);
    match updated {
        Channel::TextChannel {
            id,
            server,
            name,
            description,
            icon,
            default_permissions,
            role_permissions,
            nsfw,
            ..
        } => {
            assert_eq!(id, "C1");
            assert_eq!(server, "S1");
            assert_eq!(name, "renamed");
            assert_eq!(description, None);
            assert_eq!(icon, Some("icon".to_string()));
            assert_eq!(default_permissions, None);
            assert_eq!(role_permissions.len(), 1);
            assert_eq!(role_permissions[0].role, "R1");
            assert_eq!(role_permissions[0].permissions, OverrideField { a: 4, d: 0 });
            assert!(nsfw);
        }
        _ => panic!("the variant changed"),
    }
}

#[test]
fn channel_update_new_value_wins_over_clearing() {
    let channel = text("C1", "S1");
    let mut data = no_changes();
    data.description = Some("new".to_string());
    let updated = channel.updated(&data, &vec![FieldsChannel::Description, FieldsChannel::Icon]);
    match updated {
        Channel::TextChannel { description, icon, .. } => {
            assert_eq!(description, Some("new".to_string()));
            assert_eq!(icon, None);
        }
        _ => panic!("the variant changed"),
    }
}

#[test]
fn direct_message_update_touches_activity_only() {
    let direct = Channel::DirectMessage {
        id: "D1".to_string(),
        active: false,
        recipients: vec!["U1".to_string(), "U2".to_string()],
        last_message_id: None,
    };
    let mut data = no_changes();
    data.active = Some(true);
    data.name = Some("nothing to name".to_string());
    data.last_message_id = Some("M9".to_string());
    match direct.updated(&data, &vec![FieldsChannel::Icon]) {
        Channel::DirectMessage { id, active, recipients, last_message_id } => {
            assert_eq!(id, "D1");
            assert!(active);
            assert_eq!(recipients, vec!["U1".to_string(), "U2".to_string()]);
            assert_eq!(last_message_id, Some("M9".to_string()));
        }
        _ => panic!("the variant changed"),
    }
}

#[test]
fn saved_messages_never_change() {
    let saved = Channel::SavedMessages { id: "C0".to_string(), user: "U1".to_string() };
    let mut data = no_changes();
    data.name = Some("x".to_string());
    match saved.updated(&data, &vec![FieldsChannel::Description]) {
        Channel::SavedMessages { id, user } => {
            assert_eq!(id, "C0");
            assert_eq!(user, "U1");
        }
        _ => panic!("the variant changed"),
    }
}

fn server_with_roles() -> Server {
    Server {
        id: "S1".to_string(),
        owner: "U9".to_string(),
        name: "server".to_string(),
        description: Some("about".to_string()),
        channels: vec!["C1".to_string(), "C2".to_string()],
        roles: vec![
            RoleEntry {
                id: "R1".to_string(),
                role: Role {
                    name: "mods".to_string(),
                    permissions: OverrideField { a: 7, d: 0 },
                    colour: Some("red".to_string()),
                    hoist: false,
                    rank: 2,
                },
            },
            RoleEntry {
                id: "R2".to_string(),
                role: Role {
                    name: "guests".to_string(),
                    permissions: OverrideField { a: 1, d: 0 },
                    colour: None,
                    hoist: false,
                    rank: 5,
                },
            },
        ],
        default_permissions: 3,
        icon: Some("icon".to_string()),
        banner: None,
    }
}

#[test]
fn server_update_sets_and_clears() {
    let server = server_with_roles();
    let data = PartialServer {
        owner: None,
        name: Some("renamed".to_string()),
        description: None,
        channels: Some(vec!["C1".to_string()]),
        default_permissions: Some(12),
        icon: None,
        banner: Some("banner".to_string()),
    };
    let updated = server.updated(&data, &vec![FieldsServer::Description, FieldsServer::Icon]);
    assert_eq!(updated.id, "S1");
    assert_eq!(updated.owner, "U9");
    assert_eq!(updated.name, "renamed");
    assert_eq!(updated.description, None);
    assert_eq!(updated.channels, vec!["C1".to_string()]);
    assert_eq!(updated.default_permissions, 12);
    assert_eq!(updated.icon, None);
    assert_eq!(updated.banner, Some("banner".to_string()));
    assert_eq!(updated.roles.len(), 2);
}

#[test]
fn role_update_and_delete() {
    let server = server_with_roles();
    let data = PartialRole {
        name: None,
        permissions: Some(OverrideField { a: 0, d: 9 }),
        colour: None,
        hoist: Some(true),
        rank: Some(1),
    };
    let updated = server.with_role_updated("R1", &data, &vec![FieldsRole::Colour]);
    assert_eq!(updated.roles.len(), 2);
    assert_eq!(updated.roles[0].id, "R1");
    assert_eq!(updated.roles[0].role.name, "mods");
    assert_eq!(updated.roles[0].role.permissions, OverrideField { a: 0, d: 9 });
    assert_eq!(updated.roles[0].role.colour, None);
    assert!(updated.roles[0].role.hoist);
    assert_eq!(updated.roles[0].role.rank, 1);
    assert_eq!(updated.roles[1].role.rank, 5);
    assert_eq!(updated.roles[1].role.name, "guests");

    let same = server.with_role_updated("R7", &data, &vec![]);
    assert_eq!(same.roles[0].role.rank, 2);
    assert_eq!(same.roles[1].role.rank, 5);

    let without = server.without_role("R1");
    assert_eq!(without.roles.len(), 1);
    assert_eq!(without.roles[0].id, "R2");
    assert_eq!(server.without_role("R7").roles.len(), 2);
    assert_eq!(server.role("R2").unwrap().name, "guests");
    assert!(server.role("R7").is_none());
}

#[test]
fn member_update_sets_and_clears() {
    let mut member = Member::new("S1".to_string(), "U1".to_string());
    assert_eq!(member.id.server, "S1");
    assert_eq!(member.id.user, "U1");
    assert!(member.roles.is_empty());
    assert_eq!(member.nickname, None);
    member.roles = vec!["R1".to_string(), "R2".to_string()];
    member.nickname = Some("nick".to_string());
    assert!(member.has_role("R2"));
    assert!(!member.has_role("R3"));

    let data = PartialMember {
        nickname: None,
        avatar: Some("pic".to_string()),
        roles: None,
        timeout: None,
    };
    let cleared = member.updated(&data, &vec![FieldsMember::Roles, FieldsMember::Nickname]);
    assert!(cleared.roles.is_empty());
    assert_eq!(cleared.nickname, None);
    assert_eq!(cleared.avatar, Some("pic".to_string()));
    assert_eq!(cleared.id.server, "S1");

    let set = PartialMember {
        nickname: None,
        avatar: None,
        roles: Some(vec!["R3".to_string()]),
        timeout: None,
    };
    let changed = member.updated(&set, &vec![FieldsMember::Roles]);
    assert_eq!(changed.roles, vec!["R3".to_string()]);
    assert_eq!(changed.nickname, Some("nick".to_string()));
}

#[test]
fn relationship_with_goes_by_the_first_entry() {
    let mut user = plain_user("U1");
    user.relations = vec![
        Relationship { id: "U2".to_string(), status: RelationshipStatus::Friend },
        Relationship { id: "U3".to_string(), status: RelationshipStatus::Blocked },
        Relationship { id: "U2".to_string(), status: RelationshipStatus::Blocked },
    ];
    assert_eq!(user.relationship_with("U1"), RelationshipStatus::User);
    assert_eq!(user.relationship_with("U2"), RelationshipStatus::Friend);
    assert_eq!(user.relationship_with("U3"), RelationshipStatus::Blocked);
    assert_eq!(user.relationship_with("U4"), RelationshipStatus::Unrelated);
}

#[test]
fn which_relationships_are_followed() {
    assert!(RelationshipStatus::Friend.follows());
    assert!(RelationshipStatus::Incoming.follows());
    assert!(RelationshipStatus::Outgoing.follows());
    assert!(RelationshipStatus::User.follows());
    assert!(!RelationshipStatus::Unrelated.follows());
    assert!(!RelationshipStatus::Blocked.follows());
    assert!(!RelationshipStatus::BlockedOther.follows());
}

#[test]
fn rendering_a_user_for_the_viewer() {
    let mut viewer = plain_user("U1");
    viewer.relations = vec![
        Relationship { id: "U2".to_string(), status: RelationshipStatus::Friend },
        Relationship { id: "U3".to_string(), status: RelationshipStatus::Blocked },
    ];
    let mut friend = plain_user("U2");
    friend.relations =
        vec![Relationship { id: "U7".to_string(), status: RelationshipStatus::Friend }];
    friend.status = Some(UserStatus { text: Some("hi".to_string()), presence: Some(Presence::Busy) });
    let known = friend.into_known(&viewer, true);
    assert_eq!(known.id, "U2");
    assert_eq!(known.username, "user U2");
    assert_eq!(known.relationship, RelationshipStatus::Friend);
    assert!(known.online);
    assert!(known.relations.is_empty());
    assert_eq!(known.status.unwrap().text, Some("hi".to_string()));
    assert!(!friend.into_known(&viewer, false).online);

    let mut blocked = plain_user("U3");
    blocked.status = Some(UserStatus { text: Some("x".to_string()), presence: None });
    let hidden = blocked.into_known(&viewer, true);
    assert_eq!(hidden.relationship, RelationshipStatus::Blocked);
    assert!(!hidden.online);
    assert!(hidden.status.is_none());

    let own = viewer.into_self();
    assert_eq!(own.id, "U1");
    assert_eq!(own.relationship, RelationshipStatus::User);
    assert!(own.online);
    assert_eq!(own.relations.len(), 2);
}

#[test]
fn invisible_only_with_that_presence() {
    let mut user = plain_user("U1");
    assert!(!user.is_invisible());
    user.status = Some(UserStatus { text: None, presence: None });
    assert!(!user.is_invisible());
    user.status = Some(UserStatus { text: None, presence: Some(Presence::Idle) });
    assert!(!user.is_invisible());
    user.status = Some(UserStatus { text: None, presence: Some(Presence::Invisible) });
    assert!(user.is_invisible());
}

#[test]
fn member_generator_hands_out_each_record_once() {
    let members = vec![
        Member::new("S1".to_string(), "U1".to_string()),
        Member::new("S1".to_string(), "U2".to_string()),
        Member::new("S1".to_string(), "U3".to_string()),
    ];
    let mut generator = ChunkedServerMembersGenerator::new_reference(members);
    assert_eq!(generator.next().unwrap().id.user, "U1");
    assert_eq!(generator.next().unwrap().id.user, "U2");
    assert_eq!(generator.next().unwrap().id.user, "U3");
    assert!(generator.next().is_none());
    assert!(generator.next().is_none());
    generator.restart();
    assert_eq!(generator.next().unwrap().id.user, "U1");
}

#[test]
fn member_generator_of_nothing() {
    let mut generator = ChunkedServerMembersGenerator::new_reference(vec![]);
    assert!(generator.next().is_none());
    generator.restart();
    assert!(generator.next().is_none());
}

#[test]
fn which_acknowledgements_wait() {
    let read = AckEvent::AckMessage { id: "M1".to_string() };
    let mention = AckEvent::AddMention { ids: vec!["M1".to_string(), "M2".to_string()] };
    assert!(read.is_debounced());
    assert!(!mention.is_debounced());
    assert_eq!(read, AckEvent::AckMessage { id: "M1".to_string() });
    assert_ne!(read, mention);
}

#[test]
fn nobody_bans_themselves_or_the_owner() {
    assert_eq!(check_ban_target("U1", "U1", "U9"), Err(BanRefusal::CannotRemoveYourself));
    assert_eq!(check_ban_target("U9", "U9", "U9"), Err(BanRefusal::CannotRemoveYourself));
    assert_eq!(check_ban_target("U1", "U9", "U9"), Err(BanRefusal::InvalidOperation));
    assert_eq!(check_ban_target("U1", "U2", "U9"), Ok(()));
}

#[test]
fn ranking_is_the_least_rank_held() {
    let server = server_with_roles();
    let mut member = Member::new("S1".to_string(), "U2".to_string());
    assert_eq!(member.get_ranking(&server), i64::MAX);
    member.roles = vec!["R2".to_string()];
    assert_eq!(member.get_ranking(&server), 5);
    member.roles = vec!["R2".to_string(), "R7".to_string(), "R1".to_string()];
    assert_eq!(member.get_ranking(&server), 2);
    member.roles = vec!["R7".to_string()];
    assert_eq!(member.get_ranking(&server), i64::MAX);
}

#[test]
fn a_ban_needs_a_higher_rank() {
    let server = server_with_roles();
    let mut target = Member::new("S1".to_string(), "U2".to_string());
    target.roles = vec!["R2".to_string()];
    assert_eq!(check_ban_rank(&target, &server, Some(4)), Ok(()));
    assert_eq!(check_ban_rank(&target, &server, Some(5)), Err(BanRefusal::NotElevated));
    assert_eq!(check_ban_rank(&target, &server, Some(6)), Err(BanRefusal::NotElevated));
    assert_eq!(check_ban_rank(&target, &server, None), Ok(()));
    let nobody = Member::new("S1".to_string(), "U3".to_string());
    assert_eq!(check_ban_rank(&nobody, &server, Some(i64::MAX)), Err(BanRefusal::NotElevated));
    assert_eq!(check_ban_rank(&nobody, &server, Some(0)), Ok(()));
}

#[test]
fn roles_held_come_in_the_order_of_the_server() {
    let server = server_with_roles();
    let mut member = Member::new("S1".to_string(), "U2".to_string());
    member.roles = vec!["R2".to_string(), "R9".to_string(), "R1".to_string()];
    let held = server.roles_held_by(&member);
    assert_eq!(held.len(), 2);
    assert_eq!(held[0].id, "R1");
    assert_eq!(held[1].id, "R2");
    member.roles = vec![];
    assert!(server.roles_held_by(&member).is_empty());
}

#[test]
fn what_one_list_lacks_of_another() {
    let list = vec!["a".to_string(), "b".to_string(), "c".to_string(), "b".to_string()];
    let other = vec!["c".to_string(), "x".to_string()];
    assert_eq!(lacking(&list, &other), vec!["a".to_string(), "b".to_string(), "b".to_string()]);
    assert_eq!(lacking(&other, &list), vec!["x".to_string()]);
    assert_eq!(lacking(&list, &vec![]), list);
    assert!(lacking(&vec![], &list).is_empty());
}

#[test]
fn copies_of_a_set_and_of_a_table() {
    let mut set = IdSet::new();
    set.insert("b".to_string());
    set.insert("a".to_string());
    assert_eq!(set.to_vec(), vec!["b".to_string(), "a".to_string()]);
    let mut table: Table<Channel> = Table::new();
    table.insert("b".to_string(), text("b", "S"));
    table.insert("a".to_string(), text("a", "S"));
    table.insert("b".to_string(), text("b", "T"));
    assert_eq!(table.values(), vec![text("b", "T"), text("a", "S")]);
}

fn read(id: &str) -> AckEvent {
    AckEvent::AckMessage { id: id.to_string() }
}

#[test]
fn mentions_skip_the_board() {
    let mut board = AckBoard::new(30, 5);
    let mention = || AckEvent::AddMention { ids: vec!["M1".to_string()] };
    assert_eq!(board.submit("U1".to_string(), "C1".to_string(), mention(), 7), Some(mention()));
    assert_eq!(board.len(), 0);
    assert!(board.take_due(1000).is_empty());
}

#[test]
fn the_last_marking_is_the_one_carried_out() {
    let mut board = AckBoard::new(30, 5);
    assert_eq!(board.submit("U1".to_string(), "C1".to_string(), read("M1"), 10), None);
    assert_eq!(board.submit("U1".to_string(), "C2".to_string(), read("M7"), 11), None);
    assert_eq!(board.submit("U1".to_string(), "C1".to_string(), read("M2"), 13), None);
    assert_eq!(board.len(), 2);
    assert!(board.take_due(16).is_empty());
    assert_eq!(
        board.take_due(17),
        vec![Task {
            user: "U1".to_string(),
            channel: "C2".to_string(),
            event: read("M7"),
            first_seen: 11,
            last_updated: 11,
        }]
    );
    assert_eq!(board.len(), 1);
    assert!(board.take_due(18).is_empty());
    assert_eq!(
        board.take_due(19),
        vec![Task {
            user: "U1".to_string(),
            channel: "C1".to_string(),
            event: read("M2"),
            first_seen: 10,
            last_updated: 13,
        }]
    );
    assert_eq!(board.len(), 0);
}

#[test]
fn a_busy_task_runs_when_it_has_waited_long_enough() {
    let mut board = AckBoard::new(30, 5);
    let mut now = 100;
    while now <= 130 {
        assert!(board.take_due(now).is_empty());
        board.submit("U1".to_string(), "C1".to_string(), read("M"), now);
        now += 3;
    }
    assert_eq!(now, 133);
    let due = board.take_due(now - 2);
    assert_eq!(due.len(), 1);
    assert_eq!(due[0].first_seen, 100);
    assert_eq!(due[0].last_updated, 130);
}

#[test]
fn a_task_is_due_only_after_its_delay() {
    let task = Task {
        user: "U1".to_string(),
        channel: "C1".to_string(),
        event: read("M1"),
        first_seen: 100,
        last_updated: 120,
    };
    assert!(!task.should_run(125, 30, 5));
    assert!(task.should_run(126, 30, 5));
    assert!(!task.should_run(130, 30, 10));
    assert!(task.should_run(131, 30, 10));
    assert!(!task.should_run(90, 30, 5));
    assert!(!task.should_run(100, 0, 0));
    assert!(task.should_run(101, 0, 1000));
    assert!(task.should_run(121, 1000, 0));
}
