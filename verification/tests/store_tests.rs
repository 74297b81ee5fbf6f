use chatserver::chat::{
    Client, CreateRoomRequest, Device, GetRoomsRequest, GetUsersRequest, JoinRequest, Message,
    MessageType, Room, SendRequest, User, UserSignupRequest,
};
use chatserver::server::slib::{Config, MyChatServer, ServerState};
use chatserver::server::store::{
    is_room_entry, is_user_entry, room_file_name, room_is_wf, user_file_name, Entity,
    FileRecord, LoadError,
};
use chatserver::server::text::holds_marker;

fn client(name: &str) -> Client {
    Client {
        user: Some(User { name: name.to_string(), password: "pw".to_string(), gender: Some(1) }),
        device: Some(Device {}),
    }
}

fn config() -> Config {
    Config { addr: "0.0.0.0:1".to_string(), datapath: "data".to_string() }
}

fn room(name: &str) -> Room {
    Room {
        name: name.to_string(),
        created_time: 3,
        history_visible: false,
        password: Some("pw".to_string()),
        manner: Some(client("alice")),
        messages: vec![Message {
            client: Some(client("alice")),
            bytes: vec![104, 105],
            time: 9,
            msg_type: MessageType::Text.number(),
        }],
        clients: vec![client("alice")],
    }
}

fn user(name: &str, password: &str) -> User {
    User { name: name.to_string(), password: password.to_string(), gender: Some(1) }
}

fn busy_server() -> MyChatServer {
    let mut s = MyChatServer::new(config());
    for (name, password) in [("alice", "x"), ("bob", "y")] {
        s.signup(UserSignupRequest { client: Some(client(name)), password: password.to_string() })
            .unwrap();
    }
    for name in ["lobby", "den"] {
        s.createroom_at(
            CreateRoomRequest {
                client: Some(client("alice")),
                roomname: name.to_string(),
                password: None,
                history_visible: true,
            },
            40,
        )
        .unwrap();
    }
    s.join(JoinRequest { client: Some(client("bob")), roomname: "den".to_string(), room_password: None })
        .unwrap();
    for body in ["one", "two"] {
        s.send(SendRequest {
            client: Some(client("bob")),
            roomname: "den".to_string(),
            message: Some(Message {
                client: Some(client("bob")),
                bytes: body.as_bytes().to_vec(),
                time: 41,
                msg_type: MessageType::Text.number(),
            }),
            room_password: None,
        })
        .unwrap();
    }
    s
}

#[test]
fn markers_in_names() {
    assert!(is_room_entry("room_lobby"));
    assert!(is_room_entry("my_classroom"));
    assert!(!is_room_entry("user_bob"));
    assert!(!is_room_entry("roo"));
    assert!(!is_room_entry(""));
    assert!(is_user_entry("user_bob"));
    assert!(is_user_entry("superuser"));
    assert!(!is_user_entry("room_lobby"));
    assert!(is_room_entry("user_classroom") && is_user_entry("user_classroom"));
}

#[test]
fn marker_search_edges() {
    assert!(holds_marker("abc", ""));
    assert!(holds_marker("", ""));
    assert!(!holds_marker("", "a"));
    assert!(holds_marker("abc", "abc"));
    assert!(holds_marker("aab", "ab"));
    assert!(!holds_marker("ab", "abc"));
    assert!(holds_marker("grüße_room", "room"));
    assert!(!holds_marker("rooroo", "room"));
}

#[test]
fn file_names() {
    assert_eq!(room_file_name("lobby"), "room_lobby");
    assert_eq!(user_file_name("bob"), "user_bob");
    assert_eq!(room_file_name(""), "room_");
    assert_eq!(config().file_path("room_lobby"), "data/room_lobby");
}

#[test]
fn wf_rooms_have_named_members() {
    assert!(room_is_wf(&room("lobby")));
    let mut broken = room("lobby");
    broken.clients.push(Client { user: None, device: None });
    assert!(!room_is_wf(&broken));
    let mut twice = room("lobby");
    twice.clients.push(client("bob"));
    assert!(room_is_wf(&twice));
    let mut again = client("alice");
    again.device = None;
    twice.clients.push(again);
    assert!(!room_is_wf(&twice));
    let mut empty = room("lobby");
    empty.clients.clear();
    assert!(room_is_wf(&empty));
}

#[test]
fn a_room_with_one_member_twice_is_not_loaded() {
    let mut twice = room("b");
    twice.clients.push(client("alice"));
    let bad = vec![FileRecord { name: "room_b".to_string(), entity: Entity::Room(twice) }];
    assert_eq!(MyChatServer::init_at(config(), &bad, 1).err(), Some(LoadError::BadMembers));
}

#[test]
fn a_flush_lists_rooms_then_users() {
    let s = busy_server();
    let records = s.serialize();
    let names: Vec<&str> = records.iter().map(|r| r.name.as_str()).collect();
    assert_eq!(names, vec!["room_lobby", "room_den", "user_alice", "user_bob"]);
    assert_eq!(records[1].entity, Entity::Room(s.state.room(1).clone()));
    assert_eq!(records[3].entity, Entity::User(user("bob", "y")));
}

#[test]
fn a_restart_on_a_flush_restores_rooms_and_users() {
    let mut before = busy_server();
    let records = before.serialize();
    let mut after = MyChatServer::init_at(config(), &records, 99).ok().unwrap();
    assert_eq!(after.config, config());
    assert_eq!(after.state.room_count(), 2);
    for i in 0..2 {
        assert_eq!(after.state.room(i), before.state.room(i));
    }
    assert_eq!(after.state.room(1).messages.len(), 2);
    assert_eq!(after.state.room(1).messages[1].bytes, b"two".to_vec());
    let users_before =
        before.getusers(GetUsersRequest { client: Some(client("w")) }).unwrap().response.users;
    let users_after =
        after.getusers(GetUsersRequest { client: Some(client("w")) }).unwrap().response.users;
    assert_eq!(users_after, users_before);
    assert_eq!(users_after[1].password, "y");
    let listed = after.getrooms(GetRoomsRequest { client: Some(client("w")) }).unwrap();
    assert!(listed.response.roominfos.iter().all(|r| r.online_users.is_empty()));
    assert_eq!(after.serialize(), records);
}

#[test]
fn files_are_read_as_their_names_say() {
    let records = vec![
        FileRecord { name: "notes".to_string(), entity: Entity::Room(room("hidden")) },
        FileRecord { name: "room_a".to_string(), entity: Entity::Room(room("a")) },
        FileRecord { name: "room_b".to_string(), entity: Entity::User(user("nobody", "x")) },
        FileRecord { name: "user_c".to_string(), entity: Entity::User(user("c", "x")) },
        FileRecord { name: "user_d".to_string(), entity: Entity::Room(room("ghost")) },
    ];
    let s = MyChatServer::init_at(config(), &records, 1).ok().unwrap();
    assert_eq!(s.state.room_count(), 1);
    assert_eq!(s.state.room(0).name, "a");
    assert_eq!(s.state.user_count(), 1);
    assert_eq!(s.state.user(0).name, "c");
}

#[test]
fn load_errors() {
    let twice = vec![
        FileRecord { name: "room_a".to_string(), entity: Entity::Room(room("a")) },
        FileRecord { name: "room_a2".to_string(), entity: Entity::Room(room("a")) },
    ];
    assert_eq!(MyChatServer::init_at(config(), &twice, 1).err(), Some(LoadError::DuplicateRoom));
    let users = vec![
        FileRecord { name: "user_a".to_string(), entity: Entity::User(user("a", "x")) },
        FileRecord { name: "user_a2".to_string(), entity: Entity::User(user("a", "y")) },
    ];
    assert_eq!(MyChatServer::init_at(config(), &users, 1).err(), Some(LoadError::DuplicateUser));
    let mut broken = room("b");
    broken.clients.push(Client { user: None, device: None });
    let bad = vec![FileRecord { name: "room_b".to_string(), entity: Entity::Room(broken) }];
    assert_eq!(MyChatServer::init_at(config(), &bad, 1).err(), Some(LoadError::BadMembers));
}

#[test]
fn restore_one_record_at_a_time() {
    let mut s = ServerState::new();
    let record = FileRecord { name: "room_a".to_string(), entity: Entity::Room(room("a")) };
    assert_eq!(s.restore(&record), Ok(()));
    assert_eq!(s.restore(&record), Err(LoadError::DuplicateRoom));
    assert_eq!(s.room_count(), 1);
    assert!(s.add_user(user("u", "x")));
    assert!(!s.add_user(user("u", "y")));
    assert_eq!(s.user(0).password, "x");
    s.set_uptime(5);
}

#[test]
fn an_empty_directory_gives_an_empty_server() {
    let s = MyChatServer::init_at(config(), &vec![], 1).ok().unwrap();
    assert_eq!(s.state.room_count(), 0);
    assert_eq!(s.serialize(), vec![]);
}

#[test]
fn config_from_text() {
    let c = Config::parse("127.0.0.1:15535 ./data\n").unwrap();
    assert_eq!(c.addr, "127.0.0.1:15535");
    assert_eq!(c.datapath, "./data");
    let spaced = Config::parse("\n\t  host:1 \u{3000}\r\n dir/sub   ignored more").unwrap();
    assert_eq!(spaced, Config { addr: "host:1".to_string(), datapath: "dir/sub".to_string() });
    let unicode = Config::parse("hôte:1\u{a0}données").unwrap();
    assert_eq!(unicode, Config { addr: "hôte:1".to_string(), datapath: "données".to_string() });
}

#[test]
fn config_needs_two_words() {
    assert_eq!(Config::parse(""), None);
    assert_eq!(Config::parse("   \n"), None);
    assert_eq!(Config::parse("host:1"), None);
    assert_eq!(Config::parse("  host:1  \n"), None);
    assert_eq!(Config::default(), Config { addr: String::new(), datapath: String::new() });
}

#[test]
fn init_reads_the_clock() {
    let records = busy_server().serialize();
    let s = MyChatServer::init(config(), &records).ok().unwrap();
    assert_eq!(s.state.room_count(), 2);
    assert_eq!(s.serialize(), records);
}

#[test]
fn a_room_without_a_name_is_not_loaded() {
    let bad = vec![FileRecord { name: "room_".to_string(), entity: Entity::Room(room("")) }];
    assert_eq!(MyChatServer::init_at(config(), &bad, 1).err(), Some(LoadError::EmptyRoomName));
    let passed_over = vec![FileRecord { name: "notes".to_string(), entity: Entity::Room(room("")) }];
    assert!(MyChatServer::init_at(config(), &passed_over, 1).is_ok());
}

#[test]
fn a_user_without_a_password_is_not_loaded() {
    let bad = vec![FileRecord { name: "user_a".to_string(), entity: Entity::User(user("a", "")) }];
    assert_eq!(MyChatServer::init_at(config(), &bad, 1).err(), Some(LoadError::EmptyPassword));
    let mut s = ServerState::new();
    assert_eq!(s.restore(&bad[0]), Err(LoadError::EmptyPassword));
    assert_eq!(s.user_count(), 0);
}

#[test]
fn nobody_is_online_after_a_load_whatever_the_clock_does() {
    let records = busy_server().serialize();
    let mut s = MyChatServer::init_at(config(), &records, 99).ok().unwrap();
    for now in [0, 99, 100, 5_100, u64::MAX] {
        s.tick_at(now);
        let listed = s.getrooms(GetRoomsRequest { client: Some(client("w")) }).unwrap();
        assert_eq!(listed.response.roominfos.len(), 2);
        assert!(listed.response.roominfos.iter().all(|r| r.online_users.is_empty()));
    }
    s.tick();
    assert_eq!(s.serialize(), records);
}

#[test]
fn a_message_type_of_any_number_is_kept() {
    let mut odd = room("a");
    odd.messages[0].msg_type = 7;
    let records = vec![FileRecord { name: "room_a".to_string(), entity: Entity::Room(odd) }];
    let s = MyChatServer::init_at(config(), &records, 1).ok().unwrap();
    assert_eq!(s.state.room(0).messages[0].msg_type, 7);
    assert_eq!(s.serialize(), records);
}
