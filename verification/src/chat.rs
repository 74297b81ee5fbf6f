//! The data carried by requests and replies and held by the server.
//!
//! Every type has a view in which a string is a sequence of characters and a
//! vector is the sequence of its items' views. Contracts compare views: two
//! values with equal views are the same value to every caller.

use vstd::prelude::*;

verus! {

/// A persisted account, keyed by `name`.
#[derive(Debug, PartialEq, Eq)]
pub struct User {
    pub name: String,
    /// Compared as plain text on every signup after the first.
    pub password: String,
    /// Carried through; nothing reads it.
    pub gender: Option<i32>,
}

pub struct UserView {
    pub name: Seq<char>,
    pub password: Seq<char>,
    pub gender: Option<i32>,
}

impl DeepView for User {
    type V = UserView;

    open spec fn deep_view(&self) -> UserView {
        UserView { name: self.name@, password: self.password@, gender: self.gender }
    }
}

impl View for User {
    type V = UserView;

    open spec fn view(&self) -> UserView {
        self.deep_view()
    }
}

impl Clone for User {
    fn clone(&self) -> (r: Self)
        ensures
            r@ == self@,
    {
        User { name: self.name.clone(), password: self.password.clone(), gender: self.gender }
    }
}

/// What a request says of the machine it came from. Nothing is recorded yet.
#[derive(Debug, PartialEq, Eq, Clone, Copy)]
pub struct Device {}

/// The identity attached to every request: who asks, and from where.
/// Two clients are the same participant when their usernames are equal.
#[derive(Debug, PartialEq, Eq)]
pub struct Client {
    pub user: Option<User>,
    pub device: Option<Device>,
}

pub struct ClientView {
    pub user: Option<UserView>,
    pub device: Option<Device>,
}

impl DeepView for Client {
    type V = ClientView;

    open spec fn deep_view(&self) -> ClientView {
        ClientView { user: self.user.deep_view(), device: self.device }
    }
}

impl View for Client {
    type V = ClientView;

    open spec fn view(&self) -> ClientView {
        self.deep_view()
    }
}

impl Clone for Client {
    fn clone(&self) -> (r: Self)
        ensures
            r@ == self@,
    {
        let user = match &self.user {
            Some(u) => Some(u.clone()),
            None => None,
        };
        Client { user, device: self.device }
    }
}

impl ClientView {
    /// The username, where the client carries a user.
    pub open spec fn name(self) -> Option<Seq<char>> {
        match self.user {
            Some(u) => Some(u.name),
            None => None,
        }
    }
}

impl Client {
    /// The username of this client.
    pub fn username(&self) -> (name: String)
        requires
            self.user is Some,
        ensures
            Some(name@) == self@.name(),
    {
        match &self.user {
            Some(u) => u.name.clone(),
            None => String::new(),
        }
    }
}

/// What kind of payload a message holds.
#[derive(Debug, PartialEq, Eq, Clone, Copy, Structural)]
pub enum MessageType {
    Text,
}

impl MessageType {
    /// The number under which the kind travels and is stored.
    pub open spec fn code(self) -> i32 {
        match self {
            MessageType::Text => 0i32,
        }
    }

    /// The number under which the kind travels and is stored.
    pub fn number(self) -> (n: i32)
        ensures
            n == self.code(),
    {
        match self {
            MessageType::Text => 0,
        }
    }

    /// The kind that travels under `n`, where there is one.
    pub fn from_number(n: i32) -> (kind: Option<MessageType>)
        ensures
            kind is Some <==> n == 0,
            kind matches Some(k) ==> k.code() == n,
    {
        if n == 0 {
            Some(MessageType::Text)
        } else {
            None
        }
    }
}

/// One entry of a room's log. It never changes once appended.
#[derive(Debug, PartialEq, Eq)]
pub struct Message {
    pub client: Option<Client>,
    pub bytes: Vec<u8>,
    /// When it was sent, in milliseconds since the epoch, by the sender's clock.
    pub time: u64,
    /// The number of the kind of payload (`MessageType::number`). A number
    /// that names no kind is carried through as it came.
    pub msg_type: i32,
}

pub struct MessageView {
    pub client: Option<ClientView>,
    pub bytes: Seq<u8>,
    pub time: u64,
    pub msg_type: i32,
}

impl DeepView for Message {
    type V = MessageView;

    open spec fn deep_view(&self) -> MessageView {
        MessageView {
            client: self.client.deep_view(),
            bytes: self.bytes@,
            time: self.time,
            msg_type: self.msg_type,
        }
    }
}

impl View for Message {
    type V = MessageView;

    open spec fn view(&self) -> MessageView {
        self.deep_view()
    }
}

impl Clone for Message {
    fn clone(&self) -> (r: Self)
        ensures
            r@ == self@,
    {
        Message {
            client: clone_opt_client(&self.client),
            bytes: self.bytes.clone(),
            time: self.time,
            msg_type: self.msg_type,
        }
    }
}

/// A clone of an optional client.
pub fn clone_opt_client(c: &Option<Client>) -> (r: Option<Client>)
    ensures
        r.deep_view() == c.deep_view(),
{
    match c {
        Some(c) => Some(c.clone()),
        None => None,
    }
}

/// A clone of an optional string.
pub fn clone_opt_string(s: &Option<String>) -> (r: Option<String>)
    ensures
        r.deep_view() == s.deep_view(),
{
    match s {
        Some(s) => Some(s.clone()),
        None => None,
    }
}

/// A clone of a list of messages, in the same order.
pub fn clone_messages(v: &Vec<Message>) -> (r: Vec<Message>)
    ensures
        r.deep_view() == v.deep_view(),
{
    let r = v.clone();
    assert(r.deep_view() =~= v.deep_view());
    r
}

/// A clone of a list of clients, in the same order.
pub fn clone_clients(v: &Vec<Client>) -> (r: Vec<Client>)
    ensures
        r.deep_view() == v.deep_view(),
{
    let r = v.clone();
    assert(r.deep_view() =~= v.deep_view());
    r
}

/// A clone of a list of users, in the same order.
pub fn clone_users(v: &Vec<User>) -> (r: Vec<User>)
    ensures
        r.deep_view() == v.deep_view(),
{
    let r = v.clone();
    assert(r.deep_view() =~= v.deep_view());
    r
}

/// A clone of a list of strings, in the same order.
pub fn clone_strings(v: &Vec<String>) -> (r: Vec<String>)
    ensures
        r.deep_view() == v.deep_view(),
{
    let r = v.clone();
    assert(r.deep_view() =~= v.deep_view());
    r
}

/// A named channel: its settings, everyone who ever joined, and its log.
#[derive(Debug, PartialEq, Eq)]
pub struct Room {
    /// The key of the room; it never changes.
    pub name: String,
    pub created_time: u64,
    /// Stored and reported; nothing consults it.
    pub history_visible: bool,
    /// Stored and reported; joining does not ask for it.
    pub password: Option<String>,
    /// The client that created the room.
    pub manner: Option<Client>,
    /// The log, oldest first. A position in it never changes its message.
    pub messages: Vec<Message>,
    /// Everyone who ever joined, in the order of joining.
    pub clients: Vec<Client>,
}

pub struct RoomView {
    pub name: Seq<char>,
    pub created_time: u64,
    pub history_visible: bool,
    pub password: Option<Seq<char>>,
    pub manner: Option<ClientView>,
    pub messages: Seq<MessageView>,
    pub clients: Seq<ClientView>,
}

impl RoomView {
    /// The usernames of the members, in the order of joining.
    pub open spec fn member_names(self) -> Seq<Seq<char>> {
        Seq::new(self.clients.len(), |i: int| self.clients[i].user->0.name)
    }

    /// Every client on the member list carries a user, so each has a
    /// username, and no two of them have the same.
    pub open spec fn wf(self) -> bool {
        &&& forall|i: int|
            0 <= i < self.clients.len() ==> (#[trigger] self.clients[i]).user is Some
        &&& self.member_names().no_duplicates()
    }

    /// Whether a client with this username ever joined.
    pub open spec fn has_member(self, name: Seq<char>) -> bool {
        exists|i: int| 0 <= i < self.clients.len() && #[trigger] self.clients[i].name() == Some(name)
    }
}

/// A room stays well formed when someone who is not a member joins it.
pub proof fn lemma_new_member(room: RoomView, client: ClientView)
    requires
        room.wf(),
        client.user is Some,
        !room.has_member(client.name()->0),
    ensures
        (RoomView { clients: room.clients.push(client), ..room }).wf(),
{
    let joined = RoomView { clients: room.clients.push(client), ..room };
    let names = joined.member_names();
    assert forall|j: int, k: int|
        0 <= j < names.len() && 0 <= k < names.len() && j != k implies names[j] != names[k] by {
        if j < room.clients.len() && k < room.clients.len() {
            assert(room.member_names()[j] != room.member_names()[k]);
        } else if j < room.clients.len() {
            assert(room.clients[j].name() == Some(names[j]));
        } else if k < room.clients.len() {
            assert(room.clients[k].name() == Some(names[k]));
        }
    }
}

impl DeepView for Room {
    type V = RoomView;

    open spec fn deep_view(&self) -> RoomView {
        RoomView {
            name: self.name@,
            created_time: self.created_time,
            history_visible: self.history_visible,
            password: self.password.deep_view(),
            manner: self.manner.deep_view(),
            messages: self.messages.deep_view(),
            clients: self.clients.deep_view(),
        }
    }
}

impl View for Room {
    type V = RoomView;

    open spec fn view(&self) -> RoomView {
        self.deep_view()
    }
}

impl Clone for Room {
    fn clone(&self) -> (r: Self)
        ensures
            r@ == self@,
    {
        Room {
            name: self.name.clone(),
            created_time: self.created_time,
            history_visible: self.history_visible,
            password: clone_opt_string(&self.password),
            manner: clone_opt_client(&self.manner),
            messages: clone_messages(&self.messages),
            clients: clone_clients(&self.clients),
        }
    }
}

/// The part of `log` from position `since` on; empty where `since` is at or
/// past the end.
pub open spec fn delta(log: Seq<MessageView>, since: int) -> Seq<MessageView> {
    if 0 <= since <= log.len() {
        log.subrange(since, log.len() as int)
    } else {
        Seq::empty()
    }
}

impl Room {
    /// Puts `message` at the end of the log and says at which position it
    /// stands. Nothing else of the room changes, and no earlier position
    /// changes its message.
    pub fn append(&mut self, message: Message) -> (at: usize)
        ensures
            at == old(self)@.messages.len(),
            final(self)@ == (RoomView {
                messages: old(self)@.messages.push(message@),
                ..old(self)@
            }),
    {
        let at = self.messages.len();
        self.messages.push(message);
        assert(self.messages.deep_view() =~= old(self).messages.deep_view().push(message@));
        at
    }

    /// The log from position `since` on, in its order: what a participant
    /// who has taken in `since` messages has not seen yet.
    pub fn delta(&self, since: u32) -> (messages: Vec<Message>)
        ensures
            messages.deep_view() == delta(self@.messages, since as int),
    {
        let log = &self.messages;
        let mut messages: Vec<Message> = Vec::new();
        let mut at: usize = since as usize;
        if at > log.len() {
            assert(messages.deep_view() =~= Seq::empty());
            return messages;
        }
        let ghost from = since as int;
        assert(messages.deep_view() =~= log.deep_view().subrange(from, at as int));
        while at < log.len()
            invariant
                0 <= from <= at <= log.len(),
                messages.deep_view() == log.deep_view().subrange(from, at as int),
            decreases log.len() - at,
        {
            let ghost before = messages.deep_view();
            messages.push(log[at].clone());
            assert(messages.deep_view() =~= before.push(log[at as int]@));
            at += 1;
            assert(messages.deep_view() =~= log.deep_view().subrange(from, at as int));
        }
        messages
    }
}

/// What a listing says of one room.
#[derive(Debug, PartialEq, Eq)]
pub struct RoomInfo {
    pub name: String,
    pub manner: Option<Client>,
    pub online_users: Vec<String>,
    pub password: Option<String>,
}

pub struct RoomInfoView {
    pub name: Seq<char>,
    pub manner: Option<ClientView>,
    pub online_users: Seq<Seq<char>>,
    pub password: Option<Seq<char>>,
}

impl DeepView for RoomInfo {
    type V = RoomInfoView;

    open spec fn deep_view(&self) -> RoomInfoView {
        RoomInfoView {
            name: self.name@,
            manner: self.manner.deep_view(),
            online_users: self.online_users.deep_view(),
            password: self.password.deep_view(),
        }
    }
}

impl View for RoomInfo {
    type V = RoomInfoView;

    open spec fn view(&self) -> RoomInfoView {
        self.deep_view()
    }
}

impl Clone for RoomInfo {
    fn clone(&self) -> (r: Self)
        ensures
            r@ == self@,
    {
        RoomInfo {
            name: self.name.clone(),
            manner: clone_opt_client(&self.manner),
            online_users: clone_strings(&self.online_users),
            password: clone_opt_string(&self.password),
        }
    }
}

/// How a call that went through ended.
#[derive(Debug, PartialEq, Eq, Clone, Copy, Structural)]
pub enum ResponseCode {
    Success,
    /// The account exists and the password given is not the stored one.
    PasswordWrong,
}

/// The reply to every call; each call fills the part it is about.
#[derive(Debug, PartialEq, Eq)]
pub struct ServerResponse {
    pub code: ResponseCode,
    pub messages: Vec<Message>,
    pub roominfos: Vec<RoomInfo>,
    pub users: Vec<User>,
    pub extra_info: String,
}

pub struct ServerResponseView {
    pub code: ResponseCode,
    pub messages: Seq<MessageView>,
    pub roominfos: Seq<RoomInfoView>,
    pub users: Seq<UserView>,
    pub extra_info: Seq<char>,
}

impl ServerResponseView {
    /// The reply that says only that the call succeeded.
    pub open spec fn empty() -> ServerResponseView {
        ServerResponseView {
            code: ResponseCode::Success,
            messages: Seq::empty(),
            roominfos: Seq::empty(),
            users: Seq::empty(),
            extra_info: Seq::empty(),
        }
    }
}

impl DeepView for ServerResponse {
    type V = ServerResponseView;

    open spec fn deep_view(&self) -> ServerResponseView {
        ServerResponseView {
            code: self.code,
            messages: self.messages.deep_view(),
            roominfos: self.roominfos.deep_view(),
            users: self.users.deep_view(),
            extra_info: self.extra_info@,
        }
    }
}

impl View for ServerResponse {
    type V = ServerResponseView;

    open spec fn view(&self) -> ServerResponseView {
        self.deep_view()
    }
}

impl Default for ServerResponse {
    fn default() -> (r: Self)
        ensures
            r@ == ServerResponseView::empty(),
    {
        let r = ServerResponse {
            code: ResponseCode::Success,
            messages: Vec::new(),
            roominfos: Vec::new(),
            users: Vec::new(),
            extra_info: String::new(),
        };
        assert(r.messages.deep_view() =~= Seq::empty());
        assert(r.roominfos.deep_view() =~= Seq::empty());
        assert(r.users.deep_view() =~= Seq::empty());
        r
    }
}

/// Create the account, or check the password of an existing one.
#[derive(Debug, PartialEq, Eq)]
pub struct UserSignupRequest {
    pub client: Option<Client>,
    pub password: String,
}

pub struct UserSignupRequestView {
    pub client: Option<ClientView>,
    pub password: Seq<char>,
}

impl View for UserSignupRequest {
    type V = UserSignupRequestView;

    open spec fn view(&self) -> UserSignupRequestView {
        UserSignupRequestView { client: self.client.deep_view(), password: self.password@ }
    }
}

/// Enter a room and fetch its whole log.
#[derive(Debug, PartialEq, Eq)]
pub struct JoinRequest {
    pub client: Option<Client>,
    pub roomname: String,
    pub room_password: Option<String>,
}

pub struct JoinRequestView {
    pub client: Option<ClientView>,
    pub roomname: Seq<char>,
    pub room_password: Option<Seq<char>>,
}

impl View for JoinRequest {
    type V = JoinRequestView;

    open spec fn view(&self) -> JoinRequestView {
        JoinRequestView {
            client: self.client.deep_view(),
            roomname: self.roomname@,
            room_password: self.room_password.deep_view(),
        }
    }
}

/// Report liveness and fetch the log from position `msgnum` on.
#[derive(Debug, PartialEq, Eq)]
pub struct HeartBeatRequest {
    pub client: Option<Client>,
    pub roomname: String,
    pub room_password: Option<String>,
    pub lasttime: u64,
    /// How many messages of the room the caller has consumed so far.
    pub msgnum: u32,
}

pub struct HeartBeatRequestView {
    pub client: Option<ClientView>,
    pub roomname: Seq<char>,
    pub room_password: Option<Seq<char>>,
    pub lasttime: u64,
    pub msgnum: u32,
}

impl View for HeartBeatRequest {
    type V = HeartBeatRequestView;

    open spec fn view(&self) -> HeartBeatRequestView {
        HeartBeatRequestView {
            client: self.client.deep_view(),
            roomname: self.roomname@,
            room_password: self.room_password.deep_view(),
            lasttime: self.lasttime,
            msgnum: self.msgnum,
        }
    }
}

/// Append one message to a room's log.
#[derive(Debug, PartialEq, Eq)]
pub struct SendRequest {
    pub client: Option<Client>,
    pub roomname: String,
    pub message: Option<Message>,
    pub room_password: Option<String>,
}

pub struct SendRequestView {
    pub client: Option<ClientView>,
    pub roomname: Seq<char>,
    pub message: Option<MessageView>,
    pub room_password: Option<Seq<char>>,
}

impl View for SendRequest {
    type V = SendRequestView;

    open spec fn view(&self) -> SendRequestView {
        SendRequestView {
            client: self.client.deep_view(),
            roomname: self.roomname@,
            message: self.message.deep_view(),
            room_password: self.room_password.deep_view(),
        }
    }
}

/// List every room.
#[derive(Debug, PartialEq, Eq)]
pub struct GetRoomsRequest {
    pub client: Option<Client>,
}

pub struct GetRoomsRequestView {
    pub client: Option<ClientView>,
}

impl View for GetRoomsRequest {
    type V = GetRoomsRequestView;

    open spec fn view(&self) -> GetRoomsRequestView {
        GetRoomsRequestView { client: self.client.deep_view() }
    }
}

/// List every account.
#[derive(Debug, PartialEq, Eq)]
pub struct GetUsersRequest {
    pub client: Option<Client>,
}

pub struct GetUsersRequestView {
    pub client: Option<ClientView>,
}

impl View for GetUsersRequest {
    type V = GetUsersRequestView;

    open spec fn view(&self) -> GetUsersRequestView {
        GetUsersRequestView { client: self.client.deep_view() }
    }
}

/// Create a room that does not exist yet.
#[derive(Debug, PartialEq, Eq)]
pub struct CreateRoomRequest {
    pub client: Option<Client>,
    pub roomname: String,
    pub password: Option<String>,
    pub history_visible: bool,
}

pub struct CreateRoomRequestView {
    pub client: Option<ClientView>,
    pub roomname: Seq<char>,
    pub password: Option<Seq<char>>,
    pub history_visible: bool,
}

impl View for CreateRoomRequest {
    type V = CreateRoomRequestView;

    open spec fn view(&self) -> CreateRoomRequestView {
        CreateRoomRequestView {
            client: self.client.deep_view(),
            roomname: self.roomname@,
            password: self.password.deep_view(),
            history_visible: self.history_visible,
        }
    }
}

/// Leave a room's online set.
#[derive(Debug, PartialEq, Eq)]
pub struct ExitRoomRequest {
    pub client: Option<Client>,
    pub roomname: String,
}

pub struct ExitRoomRequestView {
    pub client: Option<ClientView>,
    pub roomname: Seq<char>,
}

impl View for ExitRoomRequest {
    type V = ExitRoomRequestView;

    open spec fn view(&self) -> ExitRoomRequestView {
        ExitRoomRequestView { client: self.client.deep_view(), roomname: self.roomname@ }
    }
}

} // verus!
