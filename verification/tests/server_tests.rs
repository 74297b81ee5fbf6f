use chatserver::chat::{
    Client, CreateRoomRequest, Device, ExitRoomRequest, GetRoomsRequest, GetUsersRequest,
    HeartBeatRequest, JoinRequest, Message, MessageType, ResponseCode, RoomInfo, SendRequest,
    ServerResponse, User, UserSignupRequest,
};
use chatserver::server::model::{ChatError, SignupOutcome};
use chatserver::server::slib::{Config, MyChatServer, Reply, ServerState};

fn client(name: &str) -> Client {
    Client {
        user: Some(User { name: name.to_string(), password: "pw".to_string(), gender: Some(1) }),
        device: Some(Device {}),
    }
}

fn nameless() -> Client {
    Client { user: None, device: Some(Device {}) }
}

fn server() -> MyChatServer {
    MyChatServer::new(Config { addr: "127.0.0.1:15535".to_string(), datapath: "data".to_string() })
}

fn text(from: &str, body: &str, time: u64) -> Message {
    Message {
        client: Some(client(from)),
        bytes: body.as_bytes().to_vec(),
        time,
        msg_type: MessageType::Text.number(),
    }
}

fn signup(name: &str, password: &str) -> UserSignupRequest {
    UserSignupRequest { client: Some(client(name)), password: password.to_string() }
}

fn create(name: &str, room: &str) -> CreateRoomRequest {
    CreateRoomRequest {
        client: Some(client(name)),
        roomname: room.to_string(),
        password: None,
        history_visible: true,
    }
}

fn join(name: &str, room: &str) -> JoinRequest {
    JoinRequest { client: Some(client(name)), roomname: room.to_string(), room_password: None }
}

fn heartbeat(name: &str, room: &str, msgnum: u32) -> HeartBeatRequest {
    HeartBeatRequest {
        client: Some(client(name)),
        roomname: room.to_string(),
        room_password: None,
        lasttime: 0,
        msgnum,
    }
}

fn send(name: &str, room: &str, body: &str) -> SendRequest {
    SendRequest {
        client: Some(client(name)),
        roomname: room.to_string(),
        message: Some(text(name, body, 11)),
        room_password: None,
    }
}

fn exit(name: &str, room: &str) -> ExitRoomRequest {
    ExitRoomRequest { client: Some(client(name)), roomname: room.to_string() }
}

fn rooms(s: &mut MyChatServer) -> Vec<RoomInfo> {
    s.getrooms(GetRoomsRequest { client: Some(client("watcher")) }).unwrap().response.roominfos
}

fn users(s: &mut MyChatServer) -> Vec<User> {
    s.getusers(GetUsersRequest { client: Some(client("watcher")) }).unwrap().response.users
}

fn online(s: &mut MyChatServer, room: &str) -> Vec<String> {
    rooms(s).into_iter().find(|r| r.name == room).unwrap().online_users
}

fn plain(flush: bool) -> Reply {
    Reply { response: ServerResponse::default(), flush }
}

#[test]
fn a_new_server_holds_nothing() {
    let mut s = server();
    assert_eq!(rooms(&mut s), vec![]);
    assert_eq!(users(&mut s), vec![]);
    assert_eq!(s.config.addr, "127.0.0.1:15535");
    assert_eq!(s.state.room_count(), 0);
    assert_eq!(s.state.user_count(), 0);
}

#[test]
fn default_response_is_empty() {
    let r = ServerResponse::default();
    assert_eq!(r.code, ResponseCode::Success);
    assert!(r.messages.is_empty() && r.roominfos.is_empty() && r.users.is_empty());
    assert_eq!(r.extra_info, "");
}

#[test]
fn end_to_end_lobby() {
    let mut s = server();
    let created = s.createroom_at(create("alice", "lobby"), 1000);
    assert_eq!(created, Ok(plain(true)));
    let sent = s.send(send("alice", "lobby", "hi"));
    assert_eq!(sent, Ok(plain(true)));
    let joined = s.join(join("bob", "lobby")).unwrap();
    assert!(!joined.flush);
    assert_eq!(joined.response.messages, vec![text("alice", "hi", 11)]);
    let first = s.heartbeat_at(heartbeat("bob", "lobby", 0), 2000).unwrap();
    assert_eq!(first.response.messages, vec![text("alice", "hi", 11)]);
    assert!(!first.flush);
    let second = s.heartbeat_at(heartbeat("bob", "lobby", 1), 2001).unwrap();
    assert_eq!(second.response.messages, vec![]);
}

#[test]
fn second_signup_with_another_password_is_wrong() {
    let mut s = server();
    let first = s.signup(signup("a", "x")).unwrap();
    assert_eq!(first.response.code, ResponseCode::Success);
    assert!(first.flush);
    let second = s.signup(signup("a", "y")).unwrap();
    assert_eq!(second.response.code, ResponseCode::PasswordWrong);
    assert_eq!(
        users(&mut s),
        vec![User { name: "a".to_string(), password: "x".to_string(), gender: Some(1) }]
    );
    let again = s.signup(signup("a", "x")).unwrap();
    assert_eq!(again.response.code, ResponseCode::Success);
    assert_eq!(users(&mut s).len(), 1);
}

#[test]
fn signup_stores_the_password_of_the_request() {
    let mut s = server();
    let mut req = signup("a", "secret");
    req.client.as_mut().unwrap().user.as_mut().unwrap().password = "ignored".to_string();
    s.signup(req).unwrap();
    assert_eq!(users(&mut s)[0].password, "secret");
    assert_eq!(users(&mut s)[0].gender, Some(1));
}

#[test]
fn signup_refusals() {
    let mut s = server();
    assert_eq!(
        s.signup(UserSignupRequest { client: None, password: "x".to_string() }),
        Err(ChatError::ClientMissing)
    );
    assert_eq!(
        s.signup(UserSignupRequest { client: Some(nameless()), password: "x".to_string() }),
        Err(ChatError::UserMissing)
    );
    assert_eq!(s.signup(signup("a", "")), Err(ChatError::PasswordEmpty));
    assert_eq!(users(&mut s), vec![]);
}

#[test]
fn create_or_authenticate_outcomes() {
    let mut s = ServerState::new();
    assert_eq!(
        s.create_or_authenticate("a".to_string(), "x".to_string()),
        SignupOutcome::Created
    );
    assert_eq!(
        s.create_or_authenticate("a".to_string(), "x".to_string()),
        SignupOutcome::Authenticated
    );
    assert_eq!(
        s.create_or_authenticate("a".to_string(), "y".to_string()),
        SignupOutcome::PasswordWrong
    );
    assert_eq!(s.find_user("a"), Some(0));
    assert_eq!(s.find_user("b"), None);
    assert_eq!(s.user(0).password, "x");
}

#[test]
fn one_creation_of_a_name_wins() {
    let mut s = server();
    let outcomes: Vec<bool> = vec!["alice", "bob", "carol", "alice"]
        .into_iter()
        .map(|who| s.createroom_at(create(who, "lobby"), 5).is_ok())
        .collect();
    assert_eq!(outcomes, vec![true, false, false, false]);
    assert_eq!(s.createroom_at(create("bob", "lobby"), 6), Err(ChatError::RoomExists));
    let listed = rooms(&mut s);
    assert_eq!(listed.iter().filter(|r| r.name == "lobby").count(), 1);
    assert_eq!(listed[0].manner, Some(client("alice")));
}

#[test]
fn created_room_has_its_creator_as_member_and_nobody_online() {
    let mut s = server();
    let mut req = create("alice", "den");
    req.password = Some("sesame".to_string());
    req.history_visible = false;
    s.createroom_at(req, 77).unwrap();
    let room = s.state.room(0);
    assert_eq!(room.name, "den");
    assert_eq!(room.created_time, 77);
    assert!(!room.history_visible);
    assert_eq!(room.password, Some("sesame".to_string()));
    assert_eq!(room.manner, Some(client("alice")));
    assert_eq!(room.clients, vec![client("alice")]);
    assert!(room.messages.is_empty());
    assert_eq!(
        rooms(&mut s),
        vec![RoomInfo {
            name: "den".to_string(),
            manner: Some(client("alice")),
            online_users: vec![],
            password: Some("sesame".to_string()),
        }]
    );
}

#[test]
fn createroom_reads_the_clock() {
    let mut s = server();
    assert_eq!(s.createroom(create("alice", "lobby")), Ok(plain(true)));
    assert!(s.state.room(0).created_time > 1_577_836_800_000);
}

#[test]
fn createroom_refusals() {
    let mut s = server();
    let mut none = create("alice", "lobby");
    none.client = None;
    assert_eq!(s.createroom_at(none, 1), Err(ChatError::ClientMissing));
    let mut anonymous = create("alice", "lobby");
    anonymous.client = Some(nameless());
    assert_eq!(s.createroom_at(anonymous, 1), Err(ChatError::UserMissing));
    assert_eq!(s.createroom_at(create("alice", ""), 1), Err(ChatError::RoomNameEmpty));
    assert_eq!(rooms(&mut s), vec![]);
}

#[test]
fn join_refusals() {
    let mut s = server();
    s.createroom_at(create("alice", "lobby"), 1).unwrap();
    let mut none = join("bob", "lobby");
    none.client = None;
    assert_eq!(s.join(none), Err(ChatError::ClientMissing));
    let mut anonymous = join("bob", "lobby");
    anonymous.client = Some(nameless());
    assert_eq!(s.join(anonymous), Err(ChatError::UserMissing));
    assert_eq!(s.join(join("bob", "")), Err(ChatError::RoomNameEmpty));
    assert_eq!(s.join(join("bob", "attic")), Err(ChatError::RoomNotFound));
    assert_eq!(s.state.room(0).clients, vec![client("alice")]);
    assert_eq!(online(&mut s, "lobby"), Vec::<String>::new());
}

#[test]
fn joining_twice_adds_one_member_and_one_online_entry() {
    let mut s = server();
    s.createroom_at(create("alice", "lobby"), 1).unwrap();
    s.join(join("bob", "lobby")).unwrap();
    let mut again = join("bob", "lobby");
    again.client.as_mut().unwrap().user.as_mut().unwrap().password = "changed".to_string();
    s.join(again).unwrap();
    s.join(join("alice", "lobby")).unwrap();
    assert_eq!(s.state.room(0).clients, vec![client("alice"), client("bob")]);
    assert_eq!(online(&mut s, "lobby"), vec!["bob".to_string(), "alice".to_string()]);
    assert_eq!(s.state.active_users(0), vec!["bob".to_string(), "alice".to_string()]);
}

#[test]
fn heartbeat_returns_the_log_from_the_cursor() {
    let mut s = server();
    s.createroom_at(create("alice", "lobby"), 1).unwrap();
    let bodies = ["m0", "m1", "m2", "m3"];
    for body in bodies {
        s.send(send("alice", "lobby", body)).unwrap();
    }
    for k in 0..=4usize {
        let delta = s.heartbeat_at(heartbeat("alice", "lobby", k as u32), 50).unwrap();
        let expected: Vec<Message> =
            bodies[k..].iter().map(|body| text("alice", body, 11)).collect();
        assert_eq!(delta.response.messages, expected);
        assert_eq!(delta.response.code, ResponseCode::Success);
    }
    let past = s.heartbeat_at(heartbeat("alice", "lobby", 9), 50).unwrap();
    assert_eq!(past.response.messages, vec![]);
    let far = s.heartbeat_at(heartbeat("alice", "lobby", u32::MAX), 50).unwrap();
    assert_eq!(far.response.messages, vec![]);
}

#[test]
fn a_repeated_heartbeat_gets_the_same_reply() {
    let mut s = server();
    s.createroom_at(create("alice", "lobby"), 1).unwrap();
    s.send(send("alice", "lobby", "one")).unwrap();
    s.send(send("alice", "lobby", "two")).unwrap();
    let first = s.heartbeat_at(heartbeat("alice", "lobby", 1), 100);
    let again = s.heartbeat_at(heartbeat("alice", "lobby", 1), 9000);
    assert_eq!(first, again);
    assert_eq!(first.unwrap().response.messages, vec![text("alice", "two", 11)]);
}

#[test]
fn heartbeat_reads_the_clock() {
    let mut s = server();
    s.createroom_at(create("alice", "lobby"), 1).unwrap();
    s.join(join("alice", "lobby")).unwrap();
    assert!(s.heartbeat(heartbeat("alice", "lobby", 0)).is_ok());
    s.tick();
    assert_eq!(online(&mut s, "lobby"), vec!["alice".to_string()]);
}

#[test]
fn heartbeat_refusals() {
    let mut s = server();
    s.createroom_at(create("alice", "lobby"), 1).unwrap();
    let mut none = heartbeat("alice", "lobby", 0);
    none.client = None;
    assert_eq!(s.heartbeat_at(none, 5), Err(ChatError::ClientMissing));
    let mut anonymous = heartbeat("alice", "lobby", 0);
    anonymous.client = Some(nameless());
    assert_eq!(s.heartbeat_at(anonymous, 5), Err(ChatError::UserMissing));
    assert_eq!(s.heartbeat_at(heartbeat("alice", "", 0), 5), Err(ChatError::RoomNameEmpty));
    assert_eq!(s.heartbeat_at(heartbeat("alice", "attic", 0), 5), Err(ChatError::RoomNotFound));
    assert_eq!(s.heartbeat_at(heartbeat("mallory", "lobby", 0), 5), Err(ChatError::NotInRoom));
    assert!(s.heartbeat_at(heartbeat("alice", "lobby", 0), 5).is_ok());
}

#[test]
fn send_appends_in_order_and_only_for_members() {
    let mut s = server();
    s.createroom_at(create("alice", "lobby"), 1).unwrap();
    assert_eq!(s.send(send("bob", "lobby", "early")), Err(ChatError::NotInRoom));
    s.join(join("bob", "lobby")).unwrap();
    s.send(send("alice", "lobby", "a")).unwrap();
    s.send(send("bob", "lobby", "b")).unwrap();
    s.send(send("alice", "lobby", "c")).unwrap();
    assert_eq!(
        s.state.room(0).messages,
        vec![text("alice", "a", 11), text("bob", "b", 11), text("alice", "c", 11)]
    );
    assert_eq!(s.state.delta(0, 2), vec![text("alice", "c", 11)]);
    assert_eq!(s.state.append(0, text("bob", "d", 12)), 3);
}

#[test]
fn send_refusals() {
    let mut s = server();
    s.createroom_at(create("alice", "lobby"), 1).unwrap();
    let mut none = send("alice", "lobby", "x");
    none.client = None;
    assert_eq!(s.send(none), Err(ChatError::ClientMissing));
    let mut anonymous = send("alice", "lobby", "x");
    anonymous.client = Some(nameless());
    assert_eq!(s.send(anonymous), Err(ChatError::UserMissing));
    let mut empty = send("alice", "lobby", "x");
    empty.message = None;
    assert_eq!(s.send(empty), Err(ChatError::MessageMissing));
    assert_eq!(s.send(send("alice", "", "x")), Err(ChatError::RoomNameEmpty));
    assert_eq!(s.send(send("alice", "attic", "x")), Err(ChatError::RoomNotFound));
    assert!(s.state.room(0).messages.is_empty());
}

#[test]
fn listings_need_a_client() {
    let mut s = server();
    assert_eq!(s.getrooms(GetRoomsRequest { client: None }), Err(ChatError::ClientMissing));
    assert_eq!(s.getusers(GetUsersRequest { client: None }), Err(ChatError::ClientMissing));
    assert_eq!(s.getrooms(GetRoomsRequest { client: Some(nameless()) }), Ok(plain(false)));
    assert_eq!(s.getusers(GetUsersRequest { client: Some(nameless()) }), Ok(plain(false)));
}

#[test]
fn listings_keep_the_order_of_creation() {
    let mut s = server();
    for name in ["zoe", "adam", "mia"] {
        s.signup(signup(name, "pw")).unwrap();
    }
    for room in ["second", "first"] {
        s.createroom_at(create("zoe", room), 3).unwrap();
    }
    let names: Vec<String> = users(&mut s).into_iter().map(|u| u.name).collect();
    assert_eq!(names, vec!["zoe", "adam", "mia"]);
    let listed: Vec<String> = rooms(&mut s).into_iter().map(|r| r.name).collect();
    assert_eq!(listed, vec!["second", "first"]);
    assert_eq!(s.state.find_room("first"), Some(1));
    assert_eq!(s.state.find_room("third"), None);
}

#[test]
fn exit_takes_off_the_online_list_only() {
    let mut s = server();
    s.createroom_at(create("alice", "lobby"), 1).unwrap();
    s.createroom_at(create("alice", "den"), 1).unwrap();
    for room in ["lobby", "den"] {
        s.join(join("alice", room)).unwrap();
        s.join(join("bob", room)).unwrap();
    }
    assert_eq!(s.exitroom(exit("alice", "lobby")), Ok(plain(false)));
    assert_eq!(online(&mut s, "lobby"), vec!["bob".to_string()]);
    assert_eq!(online(&mut s, "den"), vec!["alice".to_string(), "bob".to_string()]);
    assert_eq!(s.state.room(0).clients, vec![client("alice"), client("bob")]);
}

#[test]
fn exit_of_the_absent_changes_nothing() {
    let mut s = server();
    s.createroom_at(create("alice", "lobby"), 1).unwrap();
    s.join(join("bob", "lobby")).unwrap();
    assert_eq!(s.exitroom(exit("carol", "lobby")), Ok(plain(false)));
    assert_eq!(s.exitroom(exit("bob", "attic")), Ok(plain(false)));
    assert_eq!(online(&mut s, "lobby"), vec!["bob".to_string()]);
}

#[test]
fn exit_refusals() {
    let mut s = server();
    assert_eq!(
        s.exitroom(ExitRoomRequest { client: None, roomname: "lobby".to_string() }),
        Err(ChatError::ClientMissing)
    );
    assert_eq!(
        s.exitroom(ExitRoomRequest { client: Some(nameless()), roomname: "lobby".to_string() }),
        Err(ChatError::UserMissing)
    );
    assert_eq!(s.exitroom(exit("alice", "")), Err(ChatError::RoomNameEmpty));
}

#[test]
fn tick_drops_the_stale_and_the_silent() {
    let mut s = server();
    s.createroom_at(create("alice", "lobby"), 1).unwrap();
    for who in ["alice", "bob", "carol"] {
        s.join(join(who, "lobby")).unwrap();
    }
    s.heartbeat_at(heartbeat("alice", "lobby", 0), 10_000).unwrap();
    s.heartbeat_at(heartbeat("bob", "lobby", 0), 4_999).unwrap();
    s.tick_at(10_000);
    assert_eq!(online(&mut s, "lobby"), vec!["alice".to_string()]);
}

#[test]
fn stale_means_more_than_five_seconds() {
    let mut s = server();
    s.createroom_at(create("alice", "lobby"), 1).unwrap();
    s.join(join("alice", "lobby")).unwrap();
    s.heartbeat_at(heartbeat("alice", "lobby", 0), 1_000).unwrap();
    s.tick_at(6_000);
    assert_eq!(online(&mut s, "lobby"), vec!["alice".to_string()]);
    s.tick_at(500);
    assert_eq!(online(&mut s, "lobby"), vec!["alice".to_string()]);
    s.tick_at(6_001);
    assert_eq!(online(&mut s, "lobby"), Vec::<String>::new());
}

#[test]
fn heartbeat_in_one_room_keeps_alive_in_all() {
    let mut s = server();
    s.createroom_at(create("alice", "lobby"), 1).unwrap();
    s.createroom_at(create("alice", "den"), 1).unwrap();
    s.join(join("alice", "lobby")).unwrap();
    s.join(join("alice", "den")).unwrap();
    s.heartbeat_at(heartbeat("alice", "den", 0), 9_000).unwrap();
    s.tick_at(9_500);
    assert_eq!(online(&mut s, "lobby"), vec!["alice".to_string()]);
    assert_eq!(online(&mut s, "den"), vec!["alice".to_string()]);
}

#[test]
fn the_expired_come_back_only_by_joining() {
    let mut s = server();
    s.createroom_at(create("alice", "lobby"), 1).unwrap();
    s.join(join("bob", "lobby")).unwrap();
    s.heartbeat_at(heartbeat("bob", "lobby", 0), 1_000).unwrap();
    s.tick_at(20_000);
    assert_eq!(online(&mut s, "lobby"), Vec::<String>::new());
    s.tick_at(20_001);
    s.tick_at(900);
    s.heartbeat_at(heartbeat("bob", "lobby", 0), 30_000).unwrap();
    s.send(send("bob", "lobby", "still here")).unwrap();
    s.signup(signup("bob", "pw")).unwrap();
    s.createroom_at(create("bob", "den"), 30_001).unwrap();
    s.exitroom(exit("bob", "lobby")).unwrap();
    s.tick_at(30_002);
    assert_eq!(online(&mut s, "lobby"), Vec::<String>::new());
    s.join(join("bob", "lobby")).unwrap();
    assert_eq!(online(&mut s, "lobby"), vec!["bob".to_string()]);
}

#[test]
fn presence_operations_of_the_state() {
    let mut s = ServerState::new();
    let room = chatserver::chat::Room {
        name: "lobby".to_string(),
        created_time: 1,
        history_visible: true,
        password: None,
        manner: None,
        messages: vec![],
        clients: vec![],
    };
    assert!(s.create_room(room.clone()));
    assert!(!s.create_room(room));
    s.mark_online(0, "a".to_string());
    s.mark_online(0, "b".to_string());
    s.mark_online(0, "a".to_string());
    assert_eq!(s.active_users(0), vec!["a".to_string(), "b".to_string()]);
    s.remove_online(0, &"a".to_string());
    s.remove_online(0, &"zed".to_string());
    assert_eq!(s.active_users(0), vec!["b".to_string()]);
    s.mark_active("b".to_string(), 100);
    s.expire(5_100);
    assert_eq!(s.active_users(0), vec!["b".to_string()]);
    s.expire(5_101);
    assert_eq!(s.active_users(0), Vec::<String>::new());
    s.add_member(0, client("a"));
    assert_eq!(s.room(0).clients, vec![client("a")]);
}

#[test]
fn refusals_in_words() {
    assert_eq!(ChatError::ClientMissing.message(), "client is none");
    assert_eq!(ChatError::UserMissing.message(), "user is none");
    assert_eq!(ChatError::PasswordEmpty.message(), "password is empty");
    assert_eq!(ChatError::RoomNameEmpty.message(), "roomname is none");
    assert_eq!(ChatError::MessageMissing.message(), "message is none");
    assert_eq!(ChatError::RoomNotFound.message(), "room does not exist");
    assert_eq!(ChatError::RoomExists.message(), "create existed room");
    assert_eq!(ChatError::NotInRoom.message(), "client is not in the room");
}

#[test]
fn default_servers_hold_nothing() {
    let mut s = MyChatServer::default();
    assert_eq!(s.config, Config::default());
    assert_eq!(rooms(&mut s), vec![]);
    assert_eq!(ServerState::default().room_count(), 0);
}

#[test]
fn a_log_grows_at_its_end_and_keeps_its_positions() {
    let mut room = chatserver::chat::Room {
        name: "lobby".to_string(),
        created_time: 1,
        history_visible: true,
        password: None,
        manner: Some(client("alice")),
        messages: vec![],
        clients: vec![client("alice")],
    };
    assert_eq!(room.delta(0), vec![]);
    assert_eq!(room.append(text("alice", "a", 1)), 0);
    assert_eq!(room.append(text("alice", "b", 1)), 1);
    assert_eq!(room.append(text("alice", "c", 2)), 2);
    assert_eq!(
        room.delta(0),
        vec![text("alice", "a", 1), text("alice", "b", 1), text("alice", "c", 2)]
    );
    assert_eq!(room.delta(1), vec![text("alice", "b", 1), text("alice", "c", 2)]);
    assert_eq!(room.delta(3), vec![]);
    assert_eq!(room.delta(4), vec![]);
    assert_eq!(room.clients, vec![client("alice")]);
    assert_eq!(room.name, "lobby");
}

#[test]
fn messages_of_one_millisecond_are_all_delivered_once() {
    let mut s = server();
    s.createroom_at(create("alice", "lobby"), 1).unwrap();
    s.join(join("bob", "lobby")).unwrap();
    let mut seen: Vec<Message> = vec![];
    for round in 0..3 {
        for n in 0..round + 1 {
            s.send(send("alice", "lobby", &format!("{round}-{n}"))).unwrap();
        }
        let delta = s.heartbeat_at(heartbeat("bob", "lobby", seen.len() as u32), 7).unwrap();
        seen.extend(delta.response.messages);
    }
    let bodies: Vec<String> =
        seen.iter().map(|m| String::from_utf8(m.bytes.clone()).unwrap()).collect();
    assert_eq!(bodies, vec!["0-0", "1-0", "1-1", "2-0", "2-1", "2-2"]);
    assert_eq!(seen, s.state.room(0).messages);
}

#[test]
fn a_tick_changes_only_who_is_online() {
    let mut s = server();
    s.signup(signup("alice", "x")).unwrap();
    s.createroom_at(create("alice", "lobby"), 1).unwrap();
    s.createroom_at(create("alice", "den"), 2).unwrap();
    s.join(join("bob", "lobby")).unwrap();
    s.send(send("bob", "lobby", "hi")).unwrap();
    s.heartbeat_at(heartbeat("bob", "lobby", 0), 1_000).unwrap();
    let rooms_before: Vec<chatserver::chat::Room> =
        (0..2).map(|i| s.state.room(i).clone()).collect();
    let users_before = users(&mut s);
    s.tick_at(1_000_000);
    let rooms_after: Vec<chatserver::chat::Room> =
        (0..2).map(|i| s.state.room(i).clone()).collect();
    assert_eq!(rooms_after, rooms_before);
    assert_eq!(users(&mut s), users_before);
    assert_eq!(rooms(&mut s).len(), 2);
    assert_eq!(online(&mut s, "lobby"), Vec::<String>::new());
    assert_eq!(online(&mut s, "den"), Vec::<String>::new());
    s.join(join("bob", "lobby")).unwrap();
    s.tick_at(1_001);
    assert_eq!(online(&mut s, "lobby"), vec!["bob".to_string()]);
}

#[test]
fn signing_up_again_with_the_stored_password_changes_nothing() {
    let mut s = server();
    s.signup(signup("a", "x")).unwrap();
    let before = users(&mut s);
    let again = s.signup(signup("a", "x")).unwrap();
    assert_eq!(again.response.code, ResponseCode::Success);
    assert_eq!(users(&mut s), before);
}
