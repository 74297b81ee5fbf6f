//! The service as a state and its transitions, over sequences, sets and maps.
//!
//! Each call of the server is one function here, from the state before and
//! the request to the state after and the reply. The executable server is
//! proved to compute exactly these functions.

use crate::chat::{
    delta, ClientView, CreateRoomRequestView, ExitRoomRequestView, GetRoomsRequestView,
    GetUsersRequestView, HeartBeatRequestView, JoinRequestView, MessageView, ResponseCode,
    RoomInfoView, RoomView, SendRequestView, ServerResponseView, UserSignupRequestView, UserView,
};
use vstd::prelude::*;

verus! {

/// A participant with no heartbeat for longer than this is dropped from
/// every room's online set at the next tick.
pub const STALE_AFTER_MILLIS: u64 = 5000;

/// Why a call was refused. A refused call changes nothing.
#[derive(Debug, PartialEq, Eq, Clone, Copy, Structural)]
pub enum ChatError {
    /// The request carries no client.
    ClientMissing,
    /// The client carries no user, so there is no username to act for.
    UserMissing,
    /// Signup with an empty password.
    PasswordEmpty,
    /// The room name is empty.
    RoomNameEmpty,
    /// Send without a message.
    MessageMissing,
    /// No room has this name.
    RoomNotFound,
    /// A room with this name exists already.
    RoomExists,
    /// The client never joined the room it speaks of.
    NotInRoom,
}

/// How a signup ended.
#[derive(Debug, PartialEq, Eq, Clone, Copy, Structural)]
pub enum SignupOutcome {
    /// The name was new; the account now exists with the password given.
    Created,
    /// The account exists and the password is the stored one.
    Authenticated,
    /// The account exists and the password is not the stored one.
    PasswordWrong,
}

/// What a call that went through hands back.
pub struct ReplyView {
    pub response: ServerResponseView,
    /// Whether every room and user is to be written out before the reply
    /// leaves.
    pub flush: bool,
}

/// Everything the server holds.
pub struct StateView {
    /// The rooms, in the order of their creation.
    pub rooms: Seq<RoomView>,
    /// The accounts, in the order of their creation.
    pub users: Seq<UserView>,
    /// For each room, at its position, who is online there, in the order of
    /// arrival.
    pub online: Seq<Seq<Seq<char>>>,
    /// For each username that ever sent a heartbeat, when the last one came.
    pub last_active: Map<Seq<char>, u64>,
    /// When the last tick ran.
    pub uptime: u64,
}

/// The position at which `name` stands in `names`, if it stands there.
pub open spec fn position(names: Seq<Seq<char>>, name: Seq<char>) -> Option<int> {
    if names.contains(name) {
        Some(names.index_of(name))
    } else {
        None
    }
}

/// `list` with `name` on it: unchanged if it is there, else added at the end.
pub open spec fn with_name(list: Seq<Seq<char>>, name: Seq<char>) -> Seq<Seq<char>> {
    if list.contains(name) {
        list
    } else {
        list.push(name)
    }
}

/// The test that a name is `name`.
pub open spec fn is_name(name: Seq<char>) -> spec_fn(Seq<char>) -> bool {
    |u: Seq<char>| u == name
}

/// The test that a name is not `name`.
pub open spec fn is_not_name(name: Seq<char>) -> spec_fn(Seq<char>) -> bool {
    |u: Seq<char>| u != name
}

/// `list` without `name`.
pub open spec fn without_name(list: Seq<Seq<char>>, name: Seq<char>) -> Seq<Seq<char>> {
    list.filter(is_not_name(name))
}

/// Whether a heartbeat seen at `seen` is too old at `now`.
pub open spec fn stale(seen: u64, now: u64) -> bool {
    now > seen && now - seen > STALE_AFTER_MILLIS
}

/// Whether `user` has a heartbeat on record that is not too old at `now`.
pub open spec fn fresh(last_active: Map<Seq<char>, u64>, user: Seq<char>, now: u64) -> bool {
    last_active.contains_key(user) && !stale(last_active[user], now)
}

/// The test that a user has a fresh heartbeat at `now`.
pub open spec fn is_fresh_at(last_active: Map<Seq<char>, u64>, now: u64) -> spec_fn(
    Seq<char>,
) -> bool {
    |u: Seq<char>| fresh(last_active, u, now)
}

/// `list` without those who have no fresh heartbeat at `now`.
pub open spec fn only_fresh(
    list: Seq<Seq<char>>,
    last_active: Map<Seq<char>, u64>,
    now: u64,
) -> Seq<Seq<char>> {
    list.filter(is_fresh_at(last_active, now))
}

/// The username a request acts for.
pub open spec fn requester(client: Option<ClientView>) -> Result<Seq<char>, ChatError> {
    match client {
        None => Err(ChatError::ClientMissing),
        Some(c) => match c.user {
            None => Err(ChatError::UserMissing),
            Some(u) => Ok(u.name),
        },
    }
}

/// The reply that carries nothing.
pub open spec fn plain_reply(flush: bool) -> ReplyView {
    ReplyView { response: ServerResponseView::empty(), flush }
}

/// The line of a listing for `room` with `online` in it.
pub open spec fn room_info(room: RoomView, online: Seq<Seq<char>>) -> RoomInfoView {
    RoomInfoView {
        name: room.name,
        manner: room.manner,
        online_users: online,
        password: room.password,
    }
}

/// The room that `creator` makes at `now`: no messages, the creator its only
/// member.
pub open spec fn new_room(req: CreateRoomRequestView, now: u64) -> RoomView {
    RoomView {
        name: req.roomname,
        created_time: now,
        history_visible: req.history_visible,
        password: req.password,
        manner: req.client,
        messages: Seq::empty(),
        clients: seq![req.client->0],
    }
}

impl StateView {
    /// The state of a server that has seen nothing.
    pub open spec fn empty() -> StateView {
        StateView {
            rooms: Seq::empty(),
            users: Seq::empty(),
            online: Seq::empty(),
            last_active: Map::empty(),
            uptime: 0,
        }
    }

    /// The names of the rooms, each at the position of its room.
    pub open spec fn room_names(self) -> Seq<Seq<char>> {
        Seq::new(self.rooms.len(), |i: int| self.rooms[i].name)
    }

    /// The names of the users, each at the position of its user.
    pub open spec fn user_names(self) -> Seq<Seq<char>> {
        Seq::new(self.users.len(), |i: int| self.users[i].name)
    }

    /// No two rooms and no two users share a name; no room has an empty
    /// name and no user an empty password; each room has its online list, on
    /// which nobody stands twice; every member of a room has a username, and
    /// no two members of a room the same.
    pub open spec fn wf(self) -> bool {
        &&& self.room_names().no_duplicates()
        &&& self.user_names().no_duplicates()
        &&& self.online.len() == self.rooms.len()
        &&& forall|i: int|
            0 <= i < self.rooms.len() ==> (#[trigger] self.rooms[i]).wf() && self.rooms[i].name.len()
                > 0
        &&& forall|i: int|
            0 <= i < self.users.len() ==> (#[trigger] self.users[i]).password.len() > 0
        &&& forall|i: int| 0 <= i < self.online.len() ==> (#[trigger] self.online[i]).no_duplicates()
    }

    /// Where the room called `name` stands.
    pub open spec fn find_room(self, name: Seq<char>) -> Option<int> {
        position(self.room_names(), name)
    }

    /// Where the user called `name` stands.
    pub open spec fn find_user(self, name: Seq<char>) -> Option<int> {
        position(self.user_names(), name)
    }

    /// How many rooms are called `name`.
    pub open spec fn rooms_named(self, name: Seq<char>) -> nat {
        self.room_names().filter(is_name(name)).len()
    }

    /// Who is online in the room called `room`; nobody where there is no such
    /// room.
    pub open spec fn online_in(self, room: Seq<char>) -> Set<Seq<char>> {
        match self.find_room(room) {
            Some(i) => self.online[i].to_set(),
            None => Set::empty(),
        }
    }

    // ---- registry ----

    /// A first signup stores the password; a later one compares it.
    pub open spec fn create_or_authenticate(self, name: Seq<char>, password: Seq<char>) -> (
        StateView,
        SignupOutcome,
    ) {
        match self.find_user(name) {
            None => (
                self.add_user(UserView { name, password, gender: Some(1i32) }).0,
                SignupOutcome::Created,
            ),
            Some(i) => if self.users[i].password == password {
                (self, SignupOutcome::Authenticated)
            } else {
                (self, SignupOutcome::PasswordWrong)
            },
        }
    }

    /// The state with `room` added, nobody online in it; unchanged where a
    /// room of that name exists.
    pub open spec fn create_room(self, room: RoomView) -> (StateView, bool) {
        match self.find_room(room.name) {
            Some(_) => (self, false),
            None => (
                StateView {
                    rooms: self.rooms.push(room),
                    online: self.online.push(Seq::empty()),
                    ..self
                },
                true,
            ),
        }
    }

    /// The state with `user` added; unchanged where a user of that name
    /// exists.
    pub open spec fn add_user(self, user: UserView) -> (StateView, bool) {
        match self.find_user(user.name) {
            Some(_) => (self, false),
            None => (StateView { users: self.users.push(user), ..self }, true),
        }
    }

    // ---- logs and member lists ----

    /// `client` is a member of the room at `i`.
    pub open spec fn add_member(self, i: int, client: ClientView) -> StateView {
        let room = self.rooms[i];
        StateView {
            rooms: self.rooms.update(
                i,
                RoomView { clients: room.clients.push(client), ..room },
            ),
            ..self
        }
    }

    /// `message` is the last entry of the log of the room at `i`.
    pub open spec fn append(self, i: int, message: MessageView) -> StateView {
        let room = self.rooms[i];
        StateView {
            rooms: self.rooms.update(
                i,
                RoomView { messages: room.messages.push(message), ..room },
            ),
            ..self
        }
    }

    // ---- presence ----

    /// `user` is online in the room at `i`.
    pub open spec fn mark_online(self, i: int, user: Seq<char>) -> StateView {
        StateView { online: self.online.update(i, with_name(self.online[i], user)), ..self }
    }

    /// `user` is no longer online in the room at `i`.
    pub open spec fn remove_online(self, i: int, user: Seq<char>) -> StateView {
        StateView { online: self.online.update(i, without_name(self.online[i], user)), ..self }
    }

    /// A heartbeat of `user` came at `now`.
    pub open spec fn mark_active(self, user: Seq<char>, now: u64) -> StateView {
        StateView { last_active: self.last_active.insert(user, now), ..self }
    }

    /// One tick at `now`: every online list keeps only those with a fresh
    /// heartbeat.
    pub open spec fn expire(self, now: u64) -> StateView {
        StateView {
            online: Seq::new(
                self.online.len(),
                |i: int| only_fresh(self.online[i], self.last_active, now),
            ),
            uptime: now,
            ..self
        }
    }

    // ---- the calls ----

    /// Signup: creates the account of the client or checks the password
    /// against the stored one. A wrong password is a reply with its code, not
    /// a refusal. A flush follows.
    pub open spec fn signup(self, req: UserSignupRequestView) -> (
        StateView,
        Result<ReplyView, ChatError>,
    ) {
        match requester(req.client) {
            Err(e) => (self, Err(e)),
            Ok(name) => if req.password.len() == 0 {
                (self, Err(ChatError::PasswordEmpty))
            } else {
                let (next, outcome) = self.create_or_authenticate(name, req.password);
                let code = if outcome == SignupOutcome::PasswordWrong {
                    ResponseCode::PasswordWrong
                } else {
                    ResponseCode::Success
                };
                (
                    next,
                    Ok(
                        ReplyView {
                            response: ServerResponseView { code, ..ServerResponseView::empty() },
                            flush: true,
                        },
                    ),
                )
            },
        }
    }

    /// Join: the client is a member of the room, added at the end of the
    /// member list unless its username is on it, and is online there; the
    /// reply holds the whole log.
    pub open spec fn join(self, req: JoinRequestView) -> (StateView, Result<ReplyView, ChatError>) {
        match requester(req.client) {
            Err(e) => (self, Err(e)),
            Ok(name) => if req.roomname.len() == 0 {
                (self, Err(ChatError::RoomNameEmpty))
            } else {
                match self.find_room(req.roomname) {
                    None => (self, Err(ChatError::RoomNotFound)),
                    Some(i) => {
                        let joined = if self.rooms[i].has_member(name) {
                            self
                        } else {
                            self.add_member(i, req.client->0)
                        };
                        (
                            joined.mark_online(i, name),
                            Ok(
                                ReplyView {
                                    response: ServerResponseView {
                                        messages: self.rooms[i].messages,
                                        ..ServerResponseView::empty()
                                    },
                                    flush: false,
                                },
                            ),
                        )
                    },
                }
            },
        }
    }

    /// Heartbeat at `now`: the client, a member of the room, is alive; the
    /// reply holds the log from the cursor on.
    pub open spec fn heartbeat(self, req: HeartBeatRequestView, now: u64) -> (
        StateView,
        Result<ReplyView, ChatError>,
    ) {
        match requester(req.client) {
            Err(e) => (self, Err(e)),
            Ok(name) => if req.roomname.len() == 0 {
                (self, Err(ChatError::RoomNameEmpty))
            } else {
                match self.find_room(req.roomname) {
                    None => (self, Err(ChatError::RoomNotFound)),
                    Some(i) => if !self.rooms[i].has_member(name) {
                        (self, Err(ChatError::NotInRoom))
                    } else {
                        (
                            self.mark_active(name, now),
                            Ok(
                                ReplyView {
                                    response: ServerResponseView {
                                        messages: delta(self.rooms[i].messages, req.msgnum as int),
                                        ..ServerResponseView::empty()
                                    },
                                    flush: false,
                                },
                            ),
                        )
                    },
                }
            },
        }
    }

    /// Send: the message of a member goes to the end of the log of the room.
    /// A flush follows.
    pub open spec fn send(self, req: SendRequestView) -> (StateView, Result<ReplyView, ChatError>) {
        match requester(req.client) {
            Err(e) => (self, Err(e)),
            Ok(name) => if req.message is None {
                (self, Err(ChatError::MessageMissing))
            } else if req.roomname.len() == 0 {
                (self, Err(ChatError::RoomNameEmpty))
            } else {
                match self.find_room(req.roomname) {
                    None => (self, Err(ChatError::RoomNotFound)),
                    Some(i) => if !self.rooms[i].has_member(name) {
                        (self, Err(ChatError::NotInRoom))
                    } else {
                        (self.append(i, req.message->0), Ok(plain_reply(true)))
                    },
                }
            },
        }
    }

    /// GetRooms: one line for each room, in the order of creation.
    pub open spec fn getrooms(self, req: GetRoomsRequestView) -> (
        StateView,
        Result<ReplyView, ChatError>,
    ) {
        if req.client is None {
            (self, Err(ChatError::ClientMissing))
        } else {
            (
                self,
                Ok(
                    ReplyView {
                        response: ServerResponseView {
                            roominfos: Seq::new(
                                self.rooms.len(),
                                |i: int| room_info(self.rooms[i], self.online[i]),
                            ),
                            ..ServerResponseView::empty()
                        },
                        flush: false,
                    },
                ),
            )
        }
    }

    /// GetUsers: every account, in the order of creation.
    pub open spec fn getusers(self, req: GetUsersRequestView) -> (
        StateView,
        Result<ReplyView, ChatError>,
    ) {
        if req.client is None {
            (self, Err(ChatError::ClientMissing))
        } else {
            (
                self,
                Ok(
                    ReplyView {
                        response: ServerResponseView {
                            users: self.users,
                            ..ServerResponseView::empty()
                        },
                        flush: false,
                    },
                ),
            )
        }
    }

    /// CreateRoom at `now`: the room exists, the client its creator and only
    /// member, unless a room of that name exists. A flush follows.
    pub open spec fn createroom(self, req: CreateRoomRequestView, now: u64) -> (
        StateView,
        Result<ReplyView, ChatError>,
    ) {
        match requester(req.client) {
            Err(e) => (self, Err(e)),
            Ok(name) => if req.roomname.len() == 0 {
                (self, Err(ChatError::RoomNameEmpty))
            } else {
                let (next, created) = self.create_room(new_room(req, now));
                if created {
                    (next, Ok(plain_reply(true)))
                } else {
                    (self, Err(ChatError::RoomExists))
                }
            },
        }
    }

    /// ExitRoom: the client is no longer online in the room. Where there is
    /// no such room, or the client is not online in it, nothing changes.
    pub open spec fn exitroom(self, req: ExitRoomRequestView) -> (
        StateView,
        Result<ReplyView, ChatError>,
    ) {
        match requester(req.client) {
            Err(e) => (self, Err(e)),
            Ok(name) => if req.roomname.len() == 0 {
                (self, Err(ChatError::RoomNameEmpty))
            } else {
                match self.find_room(req.roomname) {
                    None => (self, Ok(plain_reply(false))),
                    Some(i) => (self.remove_online(i, name), Ok(plain_reply(false))),
                }
            },
        }
    }
}

/// One thing that happens to the server: a call with its request, at the
/// time it is served where the time matters, or a tick of the presence clock.
pub enum Event {
    Signup(UserSignupRequestView),
    Join(JoinRequestView),
    Heartbeat(HeartBeatRequestView, u64),
    Send(SendRequestView),
    GetRooms(GetRoomsRequestView),
    GetUsers(GetUsersRequestView),
    CreateRoom(CreateRoomRequestView, u64),
    ExitRoom(ExitRoomRequestView),
    Tick(u64),
}

impl StateView {
    /// The state after `event`.
    pub open spec fn step(self, event: Event) -> StateView {
        match event {
            Event::Signup(req) => self.signup(req).0,
            Event::Join(req) => self.join(req).0,
            Event::Heartbeat(req, now) => self.heartbeat(req, now).0,
            Event::Send(req) => self.send(req).0,
            Event::GetRooms(req) => self.getrooms(req).0,
            Event::GetUsers(req) => self.getusers(req).0,
            Event::CreateRoom(req, now) => self.createroom(req, now).0,
            Event::ExitRoom(req) => self.exitroom(req).0,
            Event::Tick(now) => self.expire(now),
        }
    }

    /// The state after every event of `events`, in order.
    pub open spec fn run(self, events: Seq<Event>) -> StateView
        decreases events.len(),
    {
        if events.len() == 0 {
            self
        } else {
            self.run(events.drop_last()).step(events.last())
        }
    }
}

impl StateView {
    /// What `event` is answered with; a tick gets no answer.
    pub open spec fn answer(self, event: Event) -> Option<Result<ReplyView, ChatError>> {
        match event {
            Event::Signup(req) => Some(self.signup(req).1),
            Event::Join(req) => Some(self.join(req).1),
            Event::Heartbeat(req, now) => Some(self.heartbeat(req, now).1),
            Event::Send(req) => Some(self.send(req).1),
            Event::GetRooms(req) => Some(self.getrooms(req).1),
            Event::GetUsers(req) => Some(self.getusers(req).1),
            Event::CreateRoom(req, now) => Some(self.createroom(req, now).1),
            Event::ExitRoom(req) => Some(self.exitroom(req).1),
            Event::Tick(_) => None,
        }
    }
}

} // verus!
