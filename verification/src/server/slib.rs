//! The server's state and the calls that change it.

use crate::chat::{
    clone_messages, clone_opt_client, clone_opt_string, clone_strings, clone_users, delta,
    lemma_new_member, Client, CreateRoomRequest, ExitRoomRequest, GetRoomsRequest,
    GetUsersRequest, HeartBeatRequest, JoinRequest, Message, ResponseCode, Room, RoomInfo,
    SendRequest, ServerResponse, User, UserSignupRequest,
};
use crate::common::{client_in_room, client_in_room_w, now_milli_seconds};
use crate::server::laws::lemma_tick_only_removes;
use crate::server::model::{
    fresh, position, room_info, ChatError, ReplyView, SignupOutcome, StateView,
};
use crate::server::names::{add_name, fresh_only, lemma_only_fresh, lemma_without_name, without};
use crate::server::text::{after_first_word, chars_of, first_word, skip_spaces, skip_word};
use vstd::hash_map::StringHashMap;
use vstd::prelude::*;
use vstd::string::{StrSliceExecFns, StringExecFns};

verus! {

/// Where the server listens and where it keeps its files.
#[derive(Debug, PartialEq, Eq)]
pub struct Config {
    pub addr: String,
    pub datapath: String,
}

/// What a configuration text says: its first word is the address, its
/// second the data directory; `None` where it has fewer than two words.
pub open spec fn config_words(text: Seq<char>) -> Option<(Seq<char>, Seq<char>)> {
    let addr = first_word(text);
    let datapath = first_word(after_first_word(text));
    if addr.len() == 0 || datapath.len() == 0 {
        None
    } else {
        Some((addr, datapath))
    }
}

impl Config {
    /// Reads a configuration from the text of its file: words parted by
    /// white space, the listen address first, the data directory second.
    pub fn parse(content: &str) -> (config: Option<Config>)
        ensures
            match config {
                Some(c) => config_words(content@) == Some((c.addr@, c.datapath@)),
                None => config_words(content@) is None,
            },
    {
        let chars = chars_of(content);
        let a0 = skip_spaces(&chars, 0);
        let a1 = skip_word(&chars, a0);
        let d0 = skip_spaces(&chars, a1);
        let d1 = skip_word(&chars, d0);
        proof {
            let text = content@;
            assert(text.skip(0) =~= text);
            assert(first_word(text) =~= text.subrange(a0 as int, a1 as int));
            assert(after_first_word(text) =~= text.skip(a1 as int));
            let tail = text.skip(a1 as int);
            assert(tail.skip(d0 - a1) =~= text.skip(d0 as int));
            assert(first_word(tail) =~= text.subrange(d0 as int, d1 as int));
        }
        if a1 == a0 || d1 == d0 {
            return None;
        }
        Some(
            Config {
                addr: String::from_str(content.substring_char(a0, a1)),
                datapath: String::from_str(content.substring_char(d0, d1)),
            },
        )
    }
}

impl Default for Config {
    fn default() -> (config: Self)
        ensures
            config.addr@.len() == 0,
            config.datapath@.len() == 0,
    {
        Config { addr: String::new(), datapath: String::new() }
    }
}

/// Everything the server holds, owned in one place: whoever holds it
/// exclusively makes each call atomic.
pub struct ServerState {
    rooms: Vec<Room>,
    users: Vec<User>,
    /// The position in `rooms` of each room, by name.
    room_index: StringHashMap<usize>,
    /// The position in `users` of each user, by name.
    user_index: StringHashMap<usize>,
    /// For the room at each position, the usernames online there: a set
    /// kept as a list without repeats, so that a listing and a tick can walk
    /// it.
    onlinemap: Vec<Vec<String>>,
    /// The latest heartbeat of each username.
    clientuptime: StringHashMap<u64>,
    uptime: u64,
}

/// The view holds the rooms, the users, the online lists, the heartbeats and
/// the time of the last tick. The two indexes are not in it: `wf` ties them
/// to the lists, so they hold nothing that the lists do not.
impl View for ServerState {
    type V = StateView;

    closed spec fn view(&self) -> StateView {
        StateView {
            rooms: self.rooms.deep_view(),
            users: self.users.deep_view(),
            online: self.onlinemap.deep_view(),
            last_active: self.clientuptime@,
            uptime: self.uptime,
        }
    }
}

/// `index` maps each name to the one position at which it stands in `names`,
/// and nothing else.
pub open spec fn indexes(names: Seq<Seq<char>>, index: Map<Seq<char>, usize>) -> bool {
    &&& forall|i: int|
        0 <= i < names.len() ==> index.contains_key(#[trigger] names[i]) && index[names[i]] == i
    &&& forall|k: Seq<char>| #[trigger]
        index.contains_key(k) ==> index[k] < names.len() && names[index[k] as int] == k
}

/// An index finds what a search of the list finds.
pub proof fn lemma_index_is_position(
    names: Seq<Seq<char>>,
    index: Map<Seq<char>, usize>,
    name: Seq<char>,
)
    requires
        indexes(names, index),
    ensures
        names.no_duplicates(),
        index.contains_key(name) ==> position(names, name) == Some(index[name] as int),
        !index.contains_key(name) ==> position(names, name) is None,
{
    if index.contains_key(name) {
        let i = index[name] as int;
        assert(names[i] == name);
        assert(names.contains(name));
        let j = names.index_of(name);
        assert(names[j] == name);
    } else {
        if names.contains(name) {
            let j = names.index_of(name);
            assert(names[j] == name);
        }
    }
    assert forall|i: int, j: int|
        0 <= i < names.len() && 0 <= j < names.len() && i != j implies names[i] != names[j] by {
        assert(index[names[i]] == i);
        assert(index[names[j]] == j);
    }
}

impl ServerState {
    /// The state is what its view says, and both indexes are in step with
    /// the lists.
    pub closed spec fn wf(&self) -> bool {
        &&& self@.wf()
        &&& indexes(self@.room_names(), self.room_index@)
        &&& indexes(self@.user_names(), self.user_index@)
    }

    /// A well-formed state has a well-formed view.
    pub proof fn lemma_wf_view(&self)
        requires
            self.wf(),
        ensures
            self@.wf(),
    {
    }

    /// The state of a server that has seen nothing.
    pub fn new() -> (s: ServerState)
        ensures
            s.wf(),
            s@ == StateView::empty(),
    {
        let s = ServerState {
            rooms: Vec::new(),
            users: Vec::new(),
            room_index: StringHashMap::new(),
            user_index: StringHashMap::new(),
            onlinemap: Vec::new(),
            clientuptime: StringHashMap::new(),
            uptime: 0,
        };
        assert(s.rooms.deep_view() =~= Seq::empty());
        assert(s.users.deep_view() =~= Seq::empty());
        assert(s.onlinemap.deep_view() =~= Seq::empty());
        s
    }

    /// Where the room called `name` stands.
    pub fn find_room(&self, name: &str) -> (found: Option<usize>)
        requires
            self.wf(),
        ensures
            found is Some ==> self@.find_room(name@) == Some(found->0 as int),
            found is None ==> self@.find_room(name@) is None,
            found is Some ==> found->0 < self@.rooms.len(),
    {
        proof {
            lemma_index_is_position(self@.room_names(), self.room_index@, name@);
        }
        match self.room_index.get(name) {
            Some(i) => Some(*i),
            None => None,
        }
    }

    /// Where the user called `name` stands.
    pub fn find_user(&self, name: &str) -> (found: Option<usize>)
        requires
            self.wf(),
        ensures
            found is Some ==> self@.find_user(name@) == Some(found->0 as int),
            found is None ==> self@.find_user(name@) is None,
            found is Some ==> found->0 < self@.users.len(),
    {
        proof {
            lemma_index_is_position(self@.user_names(), self.user_index@, name@);
        }
        match self.user_index.get(name) {
            Some(i) => Some(*i),
            None => None,
        }
    }

    /// The room at position `i`.
    pub fn room(&self, i: usize) -> (room: &Room)
        requires
            i < self@.rooms.len(),
        ensures
            room@ == self@.rooms[i as int],
    {
        &self.rooms[i]
    }

    /// How many rooms there are.
    pub fn room_count(&self) -> (n: usize)
        ensures
            n == self@.rooms.len(),
    {
        self.rooms.len()
    }

    /// Adds `room`, with nobody online in it, unless a room of its name
    /// exists: then nothing changes and the answer is `false`.
    pub fn create_room(&mut self, room: Room) -> (created: bool)
        requires
            old(self).wf(),
            room@.wf(),
            room@.name.len() > 0,
        ensures
            final(self).wf(),
            (final(self)@, created) == old(self)@.create_room(room@),
    {
        match self.find_room(room.name.as_str()) {
            Some(_) => false,
            None => {
                let name = room.name.clone();
                let at = self.rooms.len();
                proof {
                    lemma_index_is_position(self@.room_names(), self.room_index@, name@);
                }
                self.rooms.push(room);
                self.onlinemap.push(Vec::new());
                self.room_index.insert(name, at);
                proof {
                    assert(self.rooms.deep_view() =~= old(self).rooms.deep_view().push(room@));
                    assert(self.onlinemap[at as int].deep_view() =~= Seq::<Seq<char>>::empty());
                    assert(self.onlinemap.deep_view() =~= old(self).onlinemap.deep_view().push(
                        Seq::empty(),
                    ));
                    assert(self@.room_names() =~= old(self)@.room_names().push(name@));
                    assert(self@.user_names() =~= old(self)@.user_names());
                    lemma_index_is_position(self@.room_names(), self.room_index@, name@);
                }
                true
            },
        }
    }

    /// Adds `user` unless a user of its name exists: then nothing changes and
    /// the answer is `false`.
    pub fn add_user(&mut self, user: User) -> (added: bool)
        requires
            old(self).wf(),
            user@.password.len() > 0,
        ensures
            final(self).wf(),
            (final(self)@, added) == old(self)@.add_user(user@),
    {
        match self.find_user(user.name.as_str()) {
            Some(_) => false,
            None => {
                let at = self.users.len();
                let key = user.name.clone();
                proof {
                    lemma_index_is_position(self@.user_names(), self.user_index@, key@);
                }
                self.users.push(user);
                self.user_index.insert(key, at);
                proof {
                    assert(self.users.deep_view() =~= old(self).users.deep_view().push(user@));
                    assert(self@.user_names() =~= old(self)@.user_names().push(key@));
                    assert(self@.room_names() =~= old(self)@.room_names());
                    lemma_index_is_position(self@.user_names(), self.user_index@, key@);
                }
                true
            },
        }
    }

    /// The user at position `i`.
    pub fn user(&self, i: usize) -> (user: &User)
        requires
            i < self@.users.len(),
        ensures
            user@ == self@.users[i as int],
    {
        &self.users[i]
    }

    /// How many users there are.
    pub fn user_count(&self) -> (n: usize)
        ensures
            n == self@.users.len(),
    {
        self.users.len()
    }

    /// Notes that the presence clock ran at `now`.
    pub fn set_uptime(&mut self, now: u64)
        requires
            old(self).wf(),
        ensures
            final(self).wf(),
            final(self)@ == (StateView { uptime: now, ..old(self)@ }),
    {
        self.uptime = now;
        proof {
            assert(self@.room_names() =~= old(self)@.room_names());
            assert(self@.user_names() =~= old(self)@.user_names());
        }
    }

    /// A first signup of `name` stores `password`; a later one compares it
    /// and changes nothing.
    pub fn create_or_authenticate(&mut self, name: String, password: String) -> (outcome:
        SignupOutcome)
        requires
            old(self).wf(),
            password@.len() > 0,
        ensures
            final(self).wf(),
            (final(self)@, outcome) == old(self)@.create_or_authenticate(name@, password@),
    {
        match self.find_user(name.as_str()) {
            Some(i) => {
                if self.users[i].password == password {
                    SignupOutcome::Authenticated
                } else {
                    SignupOutcome::PasswordWrong
                }
            },
            None => {
                let _added = self.add_user(User { name, password, gender: Some(1) });
                SignupOutcome::Created
            },
        }
    }

    /// Puts `client`, who is not a member yet, at the end of the member
    /// list of the room at `i`.
    pub fn add_member(&mut self, i: usize, client: Client)
        requires
            old(self).wf(),
            i < old(self)@.rooms.len(),
            client.user is Some,
            !old(self)@.rooms[i as int].has_member(client@.name()->0),
        ensures
            final(self).wf(),
            final(self)@ == old(self)@.add_member(i as int, client@),
    {
        self.rooms[i].clients.push(client);
        proof {
            let before = old(self).rooms[i as int];
            let after = self.rooms[i as int];
            assert(after.clients.deep_view() =~= before.clients.deep_view().push(client@));
            assert(self.rooms.deep_view() =~= old(self)@.add_member(i as int, client@).rooms);
            lemma_new_member(before@, client@);
            assert(self@.room_names() =~= old(self)@.room_names());
            assert(self@.user_names() =~= old(self)@.user_names());
        }
    }

    /// Puts `message` at the end of the log of the room at `i` and says at
    /// which position it stands.
    pub fn append(&mut self, i: usize, message: Message) -> (at: usize)
        requires
            old(self).wf(),
            i < old(self)@.rooms.len(),
        ensures
            final(self).wf(),
            final(self)@ == old(self)@.append(i as int, message@),
            at == old(self)@.rooms[i as int].messages.len(),
    {
        let at = self.rooms[i].append(message);
        proof {
            assert(self.rooms.deep_view() =~= old(self)@.append(i as int, message@).rooms);
            assert(self@.room_names() =~= old(self)@.room_names());
            assert(self@.user_names() =~= old(self)@.user_names());
        }
        at
    }

    /// The log of the room at `i` from position `since` on.
    pub fn delta(&self, i: usize, since: u32) -> (messages: Vec<Message>)
        requires
            i < self@.rooms.len(),
        ensures
            messages.deep_view() == delta(self@.rooms[i as int].messages, since as int),
    {
        self.rooms[i].delta(since)
    }

    /// `user` is online in the room at `i`.
    pub fn mark_online(&mut self, i: usize, user: String)
        requires
            old(self).wf(),
            i < old(self)@.rooms.len(),
        ensures
            final(self).wf(),
            final(self)@ == old(self)@.mark_online(i as int, user@),
    {
        add_name(&mut self.onlinemap[i], user);
        proof {
            assert(self.onlinemap.deep_view() =~= old(self)@.mark_online(i as int, user@).online);
            assert(self@.room_names() =~= old(self)@.room_names());
            assert(self@.user_names() =~= old(self)@.user_names());
        }
    }

    /// `user` is no longer online in the room at `i`.
    pub fn remove_online(&mut self, i: usize, user: &String)
        requires
            old(self).wf(),
            i < old(self)@.rooms.len(),
        ensures
            final(self).wf(),
            final(self)@ == old(self)@.remove_online(i as int, user@),
    {
        let kept = without(&self.onlinemap[i], user);
        self.onlinemap[i] = kept;
        proof {
            lemma_without_name(old(self)@.online[i as int], user@);
            assert(self.onlinemap.deep_view() =~= old(self)@.remove_online(i as int, user@).online);
            assert(self@.room_names() =~= old(self)@.room_names());
            assert(self@.user_names() =~= old(self)@.user_names());
        }
    }

    /// A heartbeat of `user` came at `now`.
    pub fn mark_active(&mut self, user: String, now: u64)
        requires
            old(self).wf(),
        ensures
            final(self).wf(),
            final(self)@ == old(self)@.mark_active(user@, now),
    {
        self.clientuptime.insert(user, now);
        proof {
            assert(self@.room_names() =~= old(self)@.room_names());
            assert(self@.user_names() =~= old(self)@.user_names());
        }
    }

    /// Who is online in the room at `i`.
    pub fn active_users(&self, i: usize) -> (users: Vec<String>)
        requires
            self.wf(),
            i < self@.rooms.len(),
        ensures
            users.deep_view() == self@.online[i as int],
    {
        clone_strings(&self.onlinemap[i])
    }

    /// One tick at `now`: whoever has no fresh heartbeat leaves every online
    /// list.
    pub fn expire(&mut self, now: u64)
        requires
            old(self).wf(),
        ensures
            final(self).wf(),
            final(self)@ == old(self)@.expire(now),
    {
        let mut i: usize = 0;
        while i < self.onlinemap.len()
            invariant
                i <= self.onlinemap.len(),
                self.onlinemap.len() == old(self).onlinemap.len(),
                self.rooms == old(self).rooms,
                self.users == old(self).users,
                self.room_index == old(self).room_index,
                self.user_index == old(self).user_index,
                self.clientuptime == old(self).clientuptime,
                self.uptime == old(self).uptime,
                forall|j: int|
                    0 <= j < i ==> (#[trigger] self.onlinemap[j]).deep_view()
                        == old(self)@.expire(now).online[j],
                forall|j: int|
                    i <= j < self.onlinemap.len() ==> (#[trigger] self.onlinemap[j]) == old(
                        self,
                    ).onlinemap[j],
            decreases self.onlinemap.len() - i,
        {
            let kept = fresh_only(&self.onlinemap[i], &self.clientuptime, now);
            self.onlinemap[i] = kept;
            i += 1;
        }
        self.uptime = now;
        proof {
            assert(self.onlinemap.deep_view() =~= old(self)@.expire(now).online);
            assert forall|j: int| 0 <= j < self@.online.len() implies (
            #[trigger] self@.online[j]).no_duplicates() by {
                lemma_only_fresh(old(self)@.online[j], old(self)@.last_active, now);
            }
            assert(self@.room_names() =~= old(self)@.room_names());
            assert(self@.user_names() =~= old(self)@.user_names());
        }
    }

    /// One line for each room: its name, its creator, who is online, its
    /// password.
    pub fn room_infos(&self) -> (infos: Vec<RoomInfo>)
        requires
            self.wf(),
        ensures
            infos.deep_view() == Seq::new(
                self@.rooms.len(),
                |i: int| room_info(self@.rooms[i], self@.online[i]),
            ),
    {
        let mut infos: Vec<RoomInfo> = Vec::new();
        let mut i: usize = 0;
        while i < self.rooms.len()
            invariant
                self.wf(),
                i <= self.rooms.len(),
                infos.len() == i,
                forall|j: int|
                    0 <= j < i ==> (#[trigger] infos[j])@ == room_info(
                        self@.rooms[j],
                        self@.online[j],
                    ),
            decreases self.rooms.len() - i,
        {
            let room = &self.rooms[i];
            infos.push(
                RoomInfo {
                    name: room.name.clone(),
                    manner: clone_opt_client(&room.manner),
                    online_users: clone_strings(&self.onlinemap[i]),
                    password: clone_opt_string(&room.password),
                },
            );
            i += 1;
        }
        assert(infos.deep_view() =~= Seq::new(
            self@.rooms.len(),
            |i: int| room_info(self@.rooms[i], self@.online[i]),
        ));
        infos
    }

    /// Every account.
    pub fn all_users(&self) -> (users: Vec<User>)
        ensures
            users.deep_view() == self@.users,
    {
        clone_users(&self.users)
    }
}

impl Default for ServerState {
    fn default() -> (s: Self)
        ensures
            s.wf(),
            s@ == StateView::empty(),
    {
        ServerState::new()
    }
}

impl ChatError {
    /// The refusal in words.
    pub open spec fn text(self) -> Seq<char> {
        match self {
            ChatError::ClientMissing => "client is none"@,
            ChatError::UserMissing => "user is none"@,
            ChatError::PasswordEmpty => "password is empty"@,
            ChatError::RoomNameEmpty => "roomname is none"@,
            ChatError::MessageMissing => "message is none"@,
            ChatError::RoomNotFound => "room does not exist"@,
            ChatError::RoomExists => "create existed room"@,
            ChatError::NotInRoom => "client is not in the room"@,
        }
    }

    /// The refusal in words, for whoever is told of it.
    pub fn message(&self) -> (text: String)
        ensures
            text@ == self.text(),
    {
        match self {
            ChatError::ClientMissing => String::from_str("client is none"),
            ChatError::UserMissing => String::from_str("user is none"),
            ChatError::PasswordEmpty => String::from_str("password is empty"),
            ChatError::RoomNameEmpty => String::from_str("roomname is none"),
            ChatError::MessageMissing => String::from_str("message is none"),
            ChatError::RoomNotFound => String::from_str("room does not exist"),
            ChatError::RoomExists => String::from_str("create existed room"),
            ChatError::NotInRoom => String::from_str("client is not in the room"),
        }
    }
}

/// What a call that went through hands back.
#[derive(Debug, PartialEq, Eq)]
pub struct Reply {
    pub response: ServerResponse,
    /// Whether every room and user is to be written out before the reply
    /// leaves.
    pub flush: bool,
}

impl View for Reply {
    type V = ReplyView;

    open spec fn view(&self) -> ReplyView {
        ReplyView { response: self.response@, flush: self.flush }
    }
}

/// The outcome of a call, in the terms of the model.
pub open spec fn outcome_view(r: Result<Reply, ChatError>) -> Result<ReplyView, ChatError> {
    match r {
        Ok(reply) => Ok(reply@),
        Err(e) => Err(e),
    }
}

/// The chat server: its state and its configuration. Each call takes the
/// server exclusively, so it is atomic: what it checks still holds when it
/// acts.
pub struct MyChatServer {
    pub state: ServerState,
    pub config: Config,
}

/// The view of a server is the view of its state. The configuration is not
/// in it: no call changes it, and every contract says so.
impl View for MyChatServer {
    type V = StateView;

    open spec fn view(&self) -> StateView {
        self.state@
    }
}

impl Default for MyChatServer {
    fn default() -> (server: Self)
        ensures
            server.wf(),
            server@ == StateView::empty(),
            server.config.addr@.len() == 0,
            server.config.datapath@.len() == 0,
    {
        MyChatServer { state: ServerState::new(), config: Config::default() }
    }
}

impl MyChatServer {
    /// The state is well formed.
    pub open spec fn wf(&self) -> bool {
        self.state.wf()
    }

    /// A server that has seen nothing.
    pub fn new(config: Config) -> (server: MyChatServer)
        ensures
            server.wf(),
            server@ == StateView::empty(),
            server.config == config,
    {
        MyChatServer { state: ServerState::new(), config }
    }

    /// Creates the account of the client, or checks `password` against the
    /// stored one; a wrong password is a reply, not a refusal.
    pub fn signup(&mut self, req: UserSignupRequest) -> (r: Result<Reply, ChatError>)
        requires
            old(self).wf(),
        ensures
            final(self).wf(),
            final(self).config == old(self).config,
            (final(self)@, outcome_view(r)) == old(self)@.signup(req@),
    {
        let client = match req.client {
            Some(c) => c,
            None => {
                return Err(ChatError::ClientMissing);
            },
        };
        let name = match client.user {
            Some(u) => u.name,
            None => {
                return Err(ChatError::UserMissing);
            },
        };
        if req.password.as_str().is_empty() {
            return Err(ChatError::PasswordEmpty);
        }
        let outcome = self.state.create_or_authenticate(name, req.password);
        let mut response = ServerResponse::default();
        match outcome {
            SignupOutcome::PasswordWrong => {
                response.code = ResponseCode::PasswordWrong;
            },
            _ => {},
        }
        Ok(Reply { response, flush: true })
    }

    /// Puts the client on the member list of the room, unless it is there,
    /// and on its online list, and hands back the whole log.
    pub fn join(&mut self, req: JoinRequest) -> (r: Result<Reply, ChatError>)
        requires
            old(self).wf(),
        ensures
            final(self).wf(),
            final(self).config == old(self).config,
            (final(self)@, outcome_view(r)) == old(self)@.join(req@),
    {
        let client = match req.client {
            Some(c) => c,
            None => {
                return Err(ChatError::ClientMissing);
            },
        };
        if client.user.is_none() {
            return Err(ChatError::UserMissing);
        }
        let name = client.username();
        if req.roomname.as_str().is_empty() {
            return Err(ChatError::RoomNameEmpty);
        }
        let i = match self.state.find_room(req.roomname.as_str()) {
            Some(i) => i,
            None => {
                return Err(ChatError::RoomNotFound);
            },
        };
        let mut response = ServerResponse::default();
        response.messages = clone_messages(&self.state.room(i).messages);
        if !client_in_room(&client, self.state.room(i)) {
            self.state.add_member(i, client);
        }
        self.state.mark_online(i, name);
        Ok(Reply { response, flush: false })
    }

    /// Records at `now` that the client is alive and hands back the log of
    /// the room from position `msgnum` on. A client that never joined the
    /// room is refused.
    pub fn heartbeat_at(&mut self, req: HeartBeatRequest, now: u64) -> (r: Result<
        Reply,
        ChatError,
    >)
        requires
            old(self).wf(),
        ensures
            final(self).wf(),
            final(self).config == old(self).config,
            (final(self)@, outcome_view(r)) == old(self)@.heartbeat(req@, now),
    {
        let client = match req.client {
            Some(c) => c,
            None => {
                return Err(ChatError::ClientMissing);
            },
        };
        if client.user.is_none() {
            return Err(ChatError::UserMissing);
        }
        let name = client.username();
        if req.roomname.as_str().is_empty() {
            return Err(ChatError::RoomNameEmpty);
        }
        let i = match self.state.find_room(req.roomname.as_str()) {
            Some(i) => i,
            None => {
                return Err(ChatError::RoomNotFound);
            },
        };
        if !client_in_room(&client, self.state.room(i)) {
            return Err(ChatError::NotInRoom);
        }
        let mut response = ServerResponse::default();
        response.messages = self.state.delta(i, req.msgnum);
        self.state.mark_active(name, now);
        Ok(Reply { response, flush: false })
    }

    /// `heartbeat_at` with the time read from the system clock.
    pub fn heartbeat(&mut self, req: HeartBeatRequest) -> (r: Result<Reply, ChatError>)
        requires
            old(self).wf(),
        ensures
            final(self).wf(),
            final(self).config == old(self).config,
            exists|now: u64|
                (final(self)@, outcome_view(r)) == #[trigger] old(self)@.heartbeat(req@, now),
    {
        let now = now_milli_seconds();
        self.heartbeat_at(req, now)
    }

    /// Puts the message at the end of the log of the room. Only a member of
    /// the room may send.
    pub fn send(&mut self, req: SendRequest) -> (r: Result<Reply, ChatError>)
        requires
            old(self).wf(),
        ensures
            final(self).wf(),
            final(self).config == old(self).config,
            (final(self)@, outcome_view(r)) == old(self)@.send(req@),
    {
        let client = match req.client {
            Some(c) => c,
            None => {
                return Err(ChatError::ClientMissing);
            },
        };
        if client.user.is_none() {
            return Err(ChatError::UserMissing);
        }
        let message = match req.message {
            Some(m) => m,
            None => {
                return Err(ChatError::MessageMissing);
            },
        };
        if req.roomname.as_str().is_empty() {
            return Err(ChatError::RoomNameEmpty);
        }
        let i = match self.state.find_room(req.roomname.as_str()) {
            Some(i) => i,
            None => {
                return Err(ChatError::RoomNotFound);
            },
        };
        if !client_in_room_w(&client, self.state.room(i)) {
            return Err(ChatError::NotInRoom);
        }
        let _at = self.state.append(i, message);
        Ok(Reply { response: ServerResponse::default(), flush: true })
    }

    /// Lists every room with its creator, who is online in it, and its
    /// password.
    pub fn getrooms(&mut self, req: GetRoomsRequest) -> (r: Result<Reply, ChatError>)
        requires
            old(self).wf(),
        ensures
            final(self).wf(),
            final(self).config == old(self).config,
            (final(self)@, outcome_view(r)) == old(self)@.getrooms(req@),
    {
        if req.client.is_none() {
            return Err(ChatError::ClientMissing);
        }
        let mut response = ServerResponse::default();
        response.roominfos = self.state.room_infos();
        Ok(Reply { response, flush: false })
    }

    /// Lists every account.
    pub fn getusers(&mut self, req: GetUsersRequest) -> (r: Result<Reply, ChatError>)
        requires
            old(self).wf(),
        ensures
            final(self).wf(),
            final(self).config == old(self).config,
            (final(self)@, outcome_view(r)) == old(self)@.getusers(req@),
    {
        if req.client.is_none() {
            return Err(ChatError::ClientMissing);
        }
        let mut response = ServerResponse::default();
        response.users = self.state.all_users();
        Ok(Reply { response, flush: false })
    }

    /// Creates the room at `now`, the client its creator and first member,
    /// unless a room of that name exists.
    pub fn createroom_at(&mut self, req: CreateRoomRequest, now: u64) -> (r: Result<
        Reply,
        ChatError,
    >)
        requires
            old(self).wf(),
        ensures
            final(self).wf(),
            final(self).config == old(self).config,
            (final(self)@, outcome_view(r)) == old(self)@.createroom(req@, now),
    {
        let client = match req.client {
            Some(c) => c,
            None => {
                return Err(ChatError::ClientMissing);
            },
        };
        if client.user.is_none() {
            return Err(ChatError::UserMissing);
        }
        if req.roomname.as_str().is_empty() {
            return Err(ChatError::RoomNameEmpty);
        }
        let mut clients: Vec<Client> = Vec::new();
        clients.push(client.clone());
        let room = Room {
            name: req.roomname,
            created_time: now,
            history_visible: req.history_visible,
            password: req.password,
            manner: Some(client),
            messages: Vec::new(),
            clients,
        };
        proof {
            assert(room.messages.deep_view() =~= Seq::empty());
            assert(room.clients.deep_view() =~= seq![client@]);
        }
        if self.state.create_room(room) {
            Ok(Reply { response: ServerResponse::default(), flush: true })
        } else {
            Err(ChatError::RoomExists)
        }
    }

    /// `createroom_at` with the time read from the system clock.
    pub fn createroom(&mut self, req: CreateRoomRequest) -> (r: Result<Reply, ChatError>)
        requires
            old(self).wf(),
        ensures
            final(self).wf(),
            final(self).config == old(self).config,
            exists|now: u64|
                (final(self)@, outcome_view(r)) == #[trigger] old(self)@.createroom(req@, now),
    {
        let now = now_milli_seconds();
        self.createroom_at(req, now)
    }

    /// Takes the client off the online list of the room. Where there is no
    /// such room, or the client is not online in it, nothing changes.
    pub fn exitroom(&mut self, req: ExitRoomRequest) -> (r: Result<Reply, ChatError>)
        requires
            old(self).wf(),
        ensures
            final(self).wf(),
            final(self).config == old(self).config,
            (final(self)@, outcome_view(r)) == old(self)@.exitroom(req@),
    {
        let client = match req.client {
            Some(c) => c,
            None => {
                return Err(ChatError::ClientMissing);
            },
        };
        if client.user.is_none() {
            return Err(ChatError::UserMissing);
        }
        let name = client.username();
        if req.roomname.as_str().is_empty() {
            return Err(ChatError::RoomNameEmpty);
        }
        match self.state.find_room(req.roomname.as_str()) {
            Some(i) => {
                self.state.remove_online(i, &name);
            },
            None => {},
        }
        Ok(Reply { response: ServerResponse::default(), flush: false })
    }

    /// One tick of the presence clock at `now`. In every room those online
    /// after it are those who were online before it and have a fresh
    /// heartbeat at `now`: a tick puts nobody online. Rooms, users and
    /// heartbeats stay as they are, and every room keeps its online list.
    pub fn tick_at(&mut self, now: u64)
        requires
            old(self).wf(),
        ensures
            final(self).wf(),
            final(self).config == old(self).config,
            final(self)@ == old(self)@.expire(now),
            final(self)@.rooms == old(self)@.rooms,
            final(self)@.users == old(self)@.users,
            final(self)@.last_active == old(self)@.last_active,
            final(self)@.online.len() == old(self)@.online.len(),
            final(self)@.uptime == now,
            forall|room: Seq<char>, user: Seq<char>|
                #[trigger] final(self)@.online_in(room).contains(user) <==> old(
                    self,
                )@.online_in(room).contains(user) && fresh(old(self)@.last_active, user, now),
    {
        self.state.expire(now);
        proof {
            assert forall|room: Seq<char>, user: Seq<char>|
                #[trigger] self@.online_in(room).contains(user) <==> old(self)@.online_in(
                    room,
                ).contains(user) && fresh(old(self)@.last_active, user, now) by {
                lemma_tick_only_removes(old(self)@, now, room, user);
            }
        }
    }

    /// `tick_at` with the time read from the system clock. Whatever the
    /// clock reads, nobody is online afterwards who was not online before.
    pub fn tick(&mut self)
        requires
            old(self).wf(),
        ensures
            final(self).wf(),
            final(self).config == old(self).config,
            exists|now: u64| final(self)@ == #[trigger] old(self)@.expire(now),
            final(self)@.rooms == old(self)@.rooms,
            final(self)@.users == old(self)@.users,
            final(self)@.last_active == old(self)@.last_active,
            final(self)@.online.len() == old(self)@.online.len(),
            forall|room: Seq<char>, user: Seq<char>|
                #[trigger] final(self)@.online_in(room).contains(user) ==> old(self)@.online_in(
                    room,
                ).contains(user),
    {
        let now = now_milli_seconds();
        self.tick_at(now);
    }
}

} // verus!
