//! The flat-file store: one file for each room and each user, named by what
//! it holds. Reading and writing the files is the caller's part; which files
//! there are, what each holds, and what a directory of them restores is
//! decided here.

use crate::chat::{Room, RoomView, User, UserView};
use crate::common::now_milli_seconds;
use crate::server::model::StateView;
use crate::server::slib::{Config, MyChatServer, ServerState};
use crate::server::text::{has_marker, holds_marker};
use vstd::hash_set::StringHashSet;
use vstd::prelude::*;
use vstd::string::StringExecFns;

verus! {

/// A file whose name holds this is read as a room.
pub open spec fn room_marker() -> Seq<char> {
    seq!['r', 'o', 'o', 'm']
}

/// A file whose name holds this is read as a user.
pub open spec fn user_marker() -> Seq<char> {
    seq!['u', 's', 'e', 'r']
}

/// The name of the file of the room called `name`.
pub open spec fn room_file(name: Seq<char>) -> Seq<char> {
    room_marker().push('_') + name
}

/// The name of the file of the user called `name`.
pub open spec fn user_file(name: Seq<char>) -> Seq<char> {
    user_marker().push('_') + name
}

/// What one file holds.
#[derive(Debug, PartialEq, Eq)]
pub enum Entity {
    Room(Room),
    User(User),
}

pub enum EntityView {
    Room(RoomView),
    User(UserView),
}

impl DeepView for Entity {
    type V = EntityView;

    open spec fn deep_view(&self) -> EntityView {
        match self {
            Entity::Room(room) => EntityView::Room(room@),
            Entity::User(user) => EntityView::User(user@),
        }
    }
}

impl View for Entity {
    type V = EntityView;

    open spec fn view(&self) -> EntityView {
        self.deep_view()
    }
}

/// One file of the data directory: its name there, and what it holds.
#[derive(Debug, PartialEq, Eq)]
pub struct FileRecord {
    pub name: String,
    pub entity: Entity,
}

pub struct FileRecordView {
    pub name: Seq<char>,
    pub entity: EntityView,
}

impl DeepView for FileRecord {
    type V = FileRecordView;

    open spec fn deep_view(&self) -> FileRecordView {
        FileRecordView { name: self.name@, entity: self.entity@ }
    }
}

impl View for FileRecord {
    type V = FileRecordView;

    open spec fn view(&self) -> FileRecordView {
        self.deep_view()
    }
}

/// Why a directory cannot be loaded. There is no server on part of a
/// directory.
#[derive(Debug, PartialEq, Eq, Clone, Copy, Structural)]
pub enum LoadError {
    /// Two files hold a room of the same name.
    DuplicateRoom,
    /// Two files hold a user of the same name.
    DuplicateUser,
    /// A room lists a member that carries no user, or one username twice.
    BadMembers,
    /// A room has an empty name.
    EmptyRoomName,
    /// A user has an empty password.
    EmptyPassword,
}

/// The file that holds `room`.
pub open spec fn room_record(room: RoomView) -> FileRecordView {
    FileRecordView { name: room_file(room.name), entity: EntityView::Room(room) }
}

/// The file that holds `user`.
pub open spec fn user_record(user: UserView) -> FileRecordView {
    FileRecordView { name: user_file(user.name), entity: EntityView::User(user) }
}

/// The files of a flush of `s`: one for each room, then one for each user.
pub open spec fn records_of(s: StateView) -> Seq<FileRecordView> {
    Seq::new(s.rooms.len(), |i: int| room_record(s.rooms[i])) + Seq::new(
        s.users.len(),
        |i: int| user_record(s.users[i]),
    )
}

/// The state with what `record` holds restored onto it. A file is read as
/// what its name says: a room under a name without the room marker, or a
/// user under a name without the user marker, is passed over.
pub open spec fn restore_one(s: StateView, record: FileRecordView) -> Result<
    StateView,
    LoadError,
> {
    match record.entity {
        EntityView::Room(room) => if !has_marker(record.name, room_marker()) {
            Ok(s)
        } else if !room.wf() {
            Err(LoadError::BadMembers)
        } else if room.name.len() == 0 {
            Err(LoadError::EmptyRoomName)
        } else if s.find_room(room.name) is Some {
            Err(LoadError::DuplicateRoom)
        } else {
            Ok(s.create_room(room).0)
        },
        EntityView::User(user) => if !has_marker(record.name, user_marker()) {
            Ok(s)
        } else if user.password.len() == 0 {
            Err(LoadError::EmptyPassword)
        } else if s.find_user(user.name) is Some {
            Err(LoadError::DuplicateUser)
        } else {
            Ok(s.add_user(user).0)
        },
    }
}

/// The state with every one of `records` restored onto it, in order; the
/// first that cannot be restored is the error.
pub open spec fn restore_all(s: StateView, records: Seq<FileRecordView>) -> Result<
    StateView,
    LoadError,
>
    decreases records.len(),
{
    if records.len() == 0 {
        Ok(s)
    } else {
        match restore_all(s, records.drop_last()) {
            Err(e) => Err(e),
            Ok(mid) => restore_one(mid, records.last()),
        }
    }
}

/// The state of a server started at `now` on a directory that holds
/// `records`: nobody online, no heartbeat on record.
pub open spec fn loaded(records: Seq<FileRecordView>, now: u64) -> Result<StateView, LoadError> {
    match restore_all(StateView::empty(), records) {
        Err(e) => Err(e),
        Ok(s) => Ok(StateView { uptime: now, ..s }),
    }
}

/// Whether a file of this name is read as a room.
pub fn is_room_entry(name: &str) -> (yes: bool)
    ensures
        yes == has_marker(name@, room_marker()),
{
    proof {
        reveal_strlit("room");
    }
    assert("room"@ =~= room_marker());
    holds_marker(name, "room")
}

/// Whether a file of this name is read as a user.
pub fn is_user_entry(name: &str) -> (yes: bool)
    ensures
        yes == has_marker(name@, user_marker()),
{
    proof {
        reveal_strlit("user");
    }
    assert("user"@ =~= user_marker());
    holds_marker(name, "user")
}

/// The name of the file of the room called `name`.
pub fn room_file_name(name: &str) -> (file: String)
    ensures
        file@ == room_file(name@),
{
    proof {
        reveal_strlit("room_");
    }
    assert("room_"@ =~= room_marker().push('_'));
    String::from_str("room_").concat(name)
}

/// The name of the file of the user called `name`.
pub fn user_file_name(name: &str) -> (file: String)
    ensures
        file@ == user_file(name@),
{
    proof {
        reveal_strlit("user_");
    }
    assert("user_"@ =~= user_marker().push('_'));
    String::from_str("user_").concat(name)
}

/// Whether every member of `room` carries a user and no two members have
/// the same username.
pub fn room_is_wf(room: &Room) -> (ok: bool)
    ensures
        ok == room@.wf(),
{
    let mut seen = StringHashSet::new();
    let mut i: usize = 0;
    while i < room.clients.len()
        invariant
            i <= room.clients.len(),
            forall|j: int| 0 <= j < i ==> (#[trigger] room@.clients[j]).user is Some,
            forall|j: int, k: int|
                0 <= j < i && 0 <= k < i && j != k ==> room@.member_names()[j]
                    != room@.member_names()[k],
            forall|name: Seq<char>|
                seen@.contains(name) <==> exists|j: int|
                    0 <= j < i && #[trigger] room@.member_names()[j] == name,
        decreases room.clients.len() - i,
    {
        assert(room@.clients[i as int] == room.clients[i as int]@);
        match &room.clients[i].user {
            None => {
                assert(room@.clients[i as int].user is None);
                return false;
            },
            Some(user) => {
                assert(room@.member_names()[i as int] == user.name@);
                if !seen.insert(user.name.clone()) {
                    proof {
                        let j = choose|j: int|
                            0 <= j < i && #[trigger] room@.member_names()[j] == user.name@;
                        assert(room@.member_names()[j] == room@.member_names()[i as int]);
                    }
                    return false;
                }
            },
        }
        i += 1;
    }
    true
}

impl Config {
    /// The path of the file called `name` in the data directory.
    pub fn file_path(&self, name: &str) -> (path: String)
        ensures
            path@ == self.datapath@.push('/') + name@,
    {
        proof {
            reveal_strlit("/");
        }
        assert("/"@ =~= seq!['/']);
        let path = self.datapath.clone().concat("/").concat(name);
        assert(path@ =~= self.datapath@.push('/') + name@);
        path
    }
}

impl ServerState {
    /// Restores what `record` holds onto the state.
    pub fn restore(&mut self, record: &FileRecord) -> (r: Result<(), LoadError>)
        requires
            old(self).wf(),
        ensures
            final(self).wf(),
            match r {
                Ok(_) => restore_one(old(self)@, record@) == Ok::<StateView, LoadError>(
                    final(self)@,
                ),
                Err(e) => restore_one(old(self)@, record@) == Err::<StateView, LoadError>(e)
                    && final(self)@ == old(self)@,
            },
    {
        match &record.entity {
            Entity::Room(room) => {
                if !is_room_entry(record.name.as_str()) {
                    return Ok(());
                }
                if !room_is_wf(room) {
                    return Err(LoadError::BadMembers);
                }
                if room.name.as_str().is_empty() {
                    return Err(LoadError::EmptyRoomName);
                }
                if self.create_room(room.clone()) {
                    Ok(())
                } else {
                    Err(LoadError::DuplicateRoom)
                }
            },
            Entity::User(user) => {
                if !is_user_entry(record.name.as_str()) {
                    return Ok(());
                }
                if user.password.as_str().is_empty() {
                    return Err(LoadError::EmptyPassword);
                }
                if self.add_user(user.clone()) {
                    Ok(())
                } else {
                    Err(LoadError::DuplicateUser)
                }
            },
        }
    }
}

impl MyChatServer {
    /// A server started at `now` on a data directory that holds `records`:
    /// every room and user of the files, nobody online. One file that cannot
    /// be restored and there is no server. The caller lets the presence
    /// clock tick on the server from then on (`tick`): as nobody is online
    /// at the start, whoever is online later has joined since.
    pub fn init_at(config: Config, records: &Vec<FileRecord>, now: u64) -> (r: Result<
        MyChatServer,
        LoadError,
    >)
        ensures
            match r {
                Ok(server) => server.wf() && server.config == config && loaded(
                    records.deep_view(),
                    now,
                ) == Ok::<StateView, LoadError>(server@),
                Err(e) => loaded(records.deep_view(), now) == Err::<StateView, LoadError>(e),
            },
            r matches Ok(server) ==> server@.uptime == now && forall|
                room: Seq<char>,
                user: Seq<char>,
            | !(#[trigger] server@.online_in(room).contains(user)),
    {
        let mut state = ServerState::new();
        let mut i: usize = 0;
        assert(records.deep_view().take(0) =~= Seq::empty());
        while i < records.len()
            invariant
                i <= records.len(),
                state.wf(),
                restore_all(StateView::empty(), records.deep_view().take(i as int)) == Ok::<
                    StateView,
                    LoadError,
                >(state@),
            decreases records.len() - i,
        {
            proof {
                let next = records.deep_view().take(i + 1);
                assert(next.drop_last() =~= records.deep_view().take(i as int));
                assert(next.last() == records[i as int]@);
                lemma_restore_prefix_error(records.deep_view(), i + 1);
            }
            match state.restore(&records[i]) {
                Ok(_) => {},
                Err(e) => {
                    return Err(e);
                },
            }
            i += 1;
        }
        assert(records.deep_view().take(i as int) =~= records.deep_view());
        state.set_uptime(now);
        let server = MyChatServer { state, config };
        proof {
            lemma_loaded_nobody_online(records.deep_view(), now);
            assert(loaded(records.deep_view(), now) == Ok::<StateView, LoadError>(server@));
            assert(loaded(records.deep_view(), now)->Ok_0 == server@);
            assert(server@.uptime == now);
            assert forall|room: Seq<char>, user: Seq<char>|
                !(#[trigger] server@.online_in(room).contains(user)) by {
                assert(!loaded(records.deep_view(), now)->Ok_0.online_in(room).contains(user));
            }
        }
        Ok(server)
    }

    /// `init_at` with the time read from the system clock.
    pub fn init(config: Config, records: &Vec<FileRecord>) -> (r: Result<MyChatServer, LoadError>)
        ensures
            exists|now: u64|
                match r {
                    Ok(server) => server.wf() && server.config == config && #[trigger] loaded(
                        records.deep_view(),
                        now,
                    ) == Ok::<StateView, LoadError>(server@),
                    Err(e) => loaded(records.deep_view(), now) == Err::<StateView, LoadError>(e),
                },
            r matches Ok(server) ==> forall|room: Seq<char>, user: Seq<char>|
                !(#[trigger] server@.online_in(room).contains(user)),
    {
        let now = now_milli_seconds();
        let r = MyChatServer::init_at(config, records, now);
        assert(match r {
            Ok(server) => server.wf() && server.config == config && loaded(
                records.deep_view(),
                now,
            ) == Ok::<StateView, LoadError>(server@),
            Err(e) => loaded(records.deep_view(), now) == Err::<StateView, LoadError>(e),
        });
        r
    }

    /// The files of a flush: every room and every user, each under the name
    /// of its file in the data directory.
    pub fn serialize(&self) -> (records: Vec<FileRecord>)
        requires
            self.wf(),
        ensures
            records.deep_view() == records_of(self@),
    {
        let mut records: Vec<FileRecord> = Vec::new();
        let rooms = self.state.room_count();
        let users = self.state.user_count();
        let mut i: usize = 0;
        while i < rooms
            invariant
                rooms == self@.rooms.len(),
                i <= rooms,
                records.len() == i,
                forall|j: int| 0 <= j < i ==> (#[trigger] records[j])@ == room_record(self@.rooms[j]),
            decreases rooms - i,
        {
            let room = self.state.room(i);
            records.push(
                FileRecord {
                    name: room_file_name(room.name.as_str()),
                    entity: Entity::Room(room.clone()),
                },
            );
            i += 1;
        }
        let mut k: usize = 0;
        while k < users
            invariant
                rooms == self@.rooms.len(),
                users == self@.users.len(),
                k <= users,
                records.len() == rooms + k,
                forall|j: int|
                    0 <= j < rooms ==> (#[trigger] records[j])@ == room_record(self@.rooms[j]),
                forall|j: int|
                    0 <= j < k ==> (#[trigger] records[rooms + j])@ == user_record(self@.users[j]),
            decreases users - k,
        {
            let user = self.state.user(k);
            records.push(
                FileRecord {
                    name: user_file_name(user.name.as_str()),
                    entity: Entity::User(user.clone()),
                },
            );
            k += 1;
        }
        proof {
            let first = Seq::new(self@.rooms.len(), |i: int| room_record(self@.rooms[i]));
            let second = Seq::new(self@.users.len(), |i: int| user_record(self@.users[i]));
            assert forall|j: int| 0 <= j < records.len() implies records.deep_view()[j] == (first
                + second)[j] by {
                if j < rooms {
                    assert(records[j]@ == room_record(self@.rooms[j]));
                } else {
                    assert(records[rooms + (j - rooms)]@ == user_record(self@.users[j - rooms]));
                }
            }
            assert(records.deep_view() =~= first + second);
        }
        records
    }
}

/// Where a prefix of the files cannot be restored, neither can all of them,
/// and for the same reason.
pub proof fn lemma_restore_prefix_error(records: Seq<FileRecordView>, n: int)
    requires
        0 <= n <= records.len(),
    ensures
        restore_all(StateView::empty(), records.take(n)) matches Err(e) ==> restore_all(
            StateView::empty(),
            records,
        ) == Err::<StateView, LoadError>(e),
    decreases records.len() - n,
{
    if n == records.len() {
        assert(records.take(n) =~= records);
    } else {
        let longer = records.take(n + 1);
        assert(longer.drop_last() =~= records.take(n));
        lemma_restore_prefix_error(records, n + 1);
    }
}

/// Nobody is online on a server that has just been loaded.
pub proof fn lemma_loaded_nobody_online(records: Seq<FileRecordView>, now: u64)
    ensures
        loaded(records, now) matches Ok(s) ==> forall|room: Seq<char>, user: Seq<char>|
            !(#[trigger] s.online_in(room).contains(user)),
{
    lemma_restored_online_empty(records);
    if loaded(records, now) is Ok {
        let s = loaded(records, now)->Ok_0;
        assert forall|room: Seq<char>, user: Seq<char>|
            !(#[trigger] s.online_in(room).contains(user)) by {
            if s.find_room(room) is Some {
                let i = s.find_room(room)->0;
                let names = s.room_names();
                if names.contains(room) {
                    let j = names.index_of(room);
                    assert(names[j] == room);
                }
                assert(s.online[i].len() == 0);
            }
        }
    }
}

/// Every online list of a state restored from files is empty, and there is
/// one for each room.
proof fn lemma_restored_online_empty(records: Seq<FileRecordView>)
    ensures
        restore_all(StateView::empty(), records) matches Ok(s) ==> s.online.len() == s.rooms.len()
            && forall|i: int| 0 <= i < s.online.len() ==> (#[trigger] s.online[i]).len() == 0,
    decreases records.len(),
{
    if records.len() > 0 {
        lemma_restored_online_empty(records.drop_last());
    }
}

} // verus!
