//! What holds of every run of the server, proved of the model that the
//! executable server implements.

use crate::chat::{
    delta, lemma_new_member, CreateRoomRequestView, ExitRoomRequestView, HeartBeatRequestView,
    JoinRequestView, MessageView, ResponseCode, UserSignupRequestView,
};
use crate::server::model::{
    fresh, is_name, position, requester, ChatError, Event, ReplyView, StateView,
};
use crate::server::names::{lemma_only_fresh, lemma_with_name, lemma_without_name};
use crate::server::store::{
    loaded, records_of, restore_all, restore_one, room_file, room_marker, room_record,
    user_file, user_marker, user_record, EntityView, FileRecordView, LoadError,
};
use crate::server::text::{has_marker, occurs_at};
use vstd::prelude::*;

verus! {

/// In a list without repeats, a name is found at the place where it stands.
pub proof fn lemma_position_found(names: Seq<Seq<char>>, i: int)
    requires
        names.no_duplicates(),
        0 <= i < names.len(),
    ensures
        position(names, names[i]) == Some(i),
{
    assert(names.contains(names[i]));
    let j = names.index_of(names[i]);
    assert(names[j] == names[i]);
}

/// A name that is found stands at the place found.
pub proof fn lemma_position_sound(names: Seq<Seq<char>>, name: Seq<char>)
    ensures
        position(names, name) matches Some(i) ==> 0 <= i < names.len() && names[i] == name,
        position(names, name) is None ==> !names.contains(name),
{
    if names.contains(name) {
        let j = names.index_of(name);
        assert(names[j] == name);
    }
}

/// Adding a new name at the end moves no name that was there.
pub proof fn lemma_position_push(names: Seq<Seq<char>>, added: Seq<char>, name: Seq<char>)
    requires
        names.no_duplicates(),
        !names.contains(added),
    ensures
        names.push(added).no_duplicates(),
        name != added ==> position(names.push(added), name) == position(names, name),
        position(names.push(added), added) == Some(names.len() as int),
{
    let longer = names.push(added);
    assert forall|i: int, j: int|
        0 <= i < longer.len() && 0 <= j < longer.len() && i != j implies longer[i] != longer[j] by {
        if i < names.len() && j < names.len() {
        } else if i < names.len() {
            assert(names.contains(names[i]));
        } else if j < names.len() {
            assert(names.contains(names[j]));
        }
    }
    assert(longer[names.len() as int] == added);
    lemma_position_found(longer, names.len() as int);
    if name != added {
        lemma_position_sound(names, name);
        lemma_position_sound(longer, name);
        if names.contains(name) {
            let i = names.index_of(name);
            assert(longer[i] == name);
            lemma_position_found(longer, i);
            lemma_position_found(names, i);
        } else {
            if longer.contains(name) {
                let j = longer.index_of(name);
                assert(names[j] == name);
            }
        }
    }
}

/// In a list without repeats, a name that is on it is on it exactly once.
pub proof fn lemma_count_once(names: Seq<Seq<char>>, name: Seq<char>)
    requires
        names.no_duplicates(),
    ensures
        names.filter(is_name(name)).len() == if names.contains(name) {
            1nat
        } else {
            0nat
        },
    decreases names.len(),
{
    reveal(Seq::filter);
    if names.len() > 0 {
        let front = names.drop_last();
        lemma_count_once(front, name);
        if names.last() == name {
            if front.contains(name) {
                let j = front.index_of(name);
                assert(names[j] == names[names.len() - 1]);
            }
            assert(names[names.len() - 1] == name);
        } else {
            if names.contains(name) {
                let j = names.index_of(name);
                assert(front[j] == name);
            }
            if front.contains(name) {
                let j = front.index_of(name);
                assert(names[j] == name);
            }
        }
    }
}

/// Every call and every tick keeps the state well formed.
pub proof fn lemma_step_wf(s: StateView, event: Event)
    requires
        s.wf(),
    ensures
        s.step(event).wf(),
        s.step(event).rooms.len() >= s.rooms.len(),
        forall|i: int|
            0 <= i < s.rooms.len() ==> (#[trigger] s.step(event).rooms[i]).name == s.rooms[i].name,
{
    let t = s.step(event);
    match event {
        Event::Signup(req) => {
            if requester(req.client) is Ok && req.password.len() > 0 {
                let name = requester(req.client)->Ok_0;
                if s.find_user(name) is None {
                    lemma_position_sound(s.user_names(), name);
                    lemma_position_push(s.user_names(), name, name);
                    assert(t.user_names() =~= s.user_names().push(name));
                    assert(t.room_names() =~= s.room_names());
                }
            }
        },
        Event::Join(req) => {
            if requester(req.client) is Ok && req.roomname.len() > 0 && s.find_room(req.roomname)
                is Some {
                let i = s.find_room(req.roomname)->0;
                lemma_position_sound(s.room_names(), req.roomname);
                assert(t.room_names() =~= s.room_names());
                assert(t.user_names() =~= s.user_names());
                lemma_with_name(s.online[i], requester(req.client)->Ok_0);
                assert(s.rooms[i].wf());
                if !s.rooms[i].has_member(requester(req.client)->Ok_0) {
                    lemma_new_member(s.rooms[i], req.client->0);
                }
            }
        },
        Event::Heartbeat(req, now) => {
            assert(t.room_names() =~= s.room_names());
            assert(t.user_names() =~= s.user_names());
        },
        Event::Send(req) => {
            if requester(req.client) is Ok && req.message is Some && req.roomname.len() > 0
                && s.find_room(req.roomname) is Some {
                let i = s.find_room(req.roomname)->0;
                lemma_position_sound(s.room_names(), req.roomname);
                assert(s.rooms[i].wf());
                assert(t.room_names() =~= s.room_names());
                assert(t.user_names() =~= s.user_names());
            }
        },
        Event::GetRooms(req) => {},
        Event::GetUsers(req) => {},
        Event::CreateRoom(req, now) => {
            if requester(req.client) is Ok && req.roomname.len() > 0 && s.find_room(req.roomname)
                is None {
                lemma_position_sound(s.room_names(), req.roomname);
                lemma_position_push(s.room_names(), req.roomname, req.roomname);
                assert(t.room_names() =~= s.room_names().push(req.roomname));
                assert(t.user_names() =~= s.user_names());
            }
        },
        Event::ExitRoom(req) => {
            if requester(req.client) is Ok && req.roomname.len() > 0 && s.find_room(req.roomname)
                is Some {
                let i = s.find_room(req.roomname)->0;
                let name = requester(req.client)->Ok_0;
                lemma_position_sound(s.room_names(), req.roomname);
                lemma_without_name(s.online[i], name);
                assert(t.room_names() =~= s.room_names());
                assert(t.user_names() =~= s.user_names());
            }
        },
        Event::Tick(now) => {
            assert(t.room_names() =~= s.room_names());
            assert(t.user_names() =~= s.user_names());
            assert forall|i: int| 0 <= i < t.online.len() implies (#[trigger] t.online[i]).no_duplicates() by {
                lemma_only_fresh(s.online[i], s.last_active, now);
            }
        },
    }
}

/// A call that is refused changes nothing, and neither does a listing.
pub proof fn lemma_refusal_changes_nothing(s: StateView, event: Event)
    ensures
        s.answer(event) matches Some(Err(_)) ==> s.step(event) == s,
        event is GetRooms || event is GetUsers ==> s.step(event) == s,
{
}

/// Nothing is forgotten: through every call and every tick each room keeps
/// its place, its log as the beginning of its new log, so that a position in
/// a log keeps its message, and its member list as the beginning of its new
/// member list; and each user stays as it is.
pub proof fn lemma_nothing_is_forgotten(s: StateView, event: Event)
    requires
        s.wf(),
    ensures
        s.step(event).rooms.len() >= s.rooms.len(),
        forall|i: int|
            0 <= i < s.rooms.len() ==> s.rooms[i].messages.is_prefix_of(
                (#[trigger] s.step(event).rooms[i]).messages,
            ) && s.rooms[i].clients.is_prefix_of(s.step(event).rooms[i].clients),
        s.users.is_prefix_of(s.step(event).users),
{
    let t = s.step(event);
    match event {
        Event::Join(req) => {
            if requester(req.client) is Ok && req.roomname.len() > 0 && s.find_room(req.roomname)
                is Some {
                lemma_position_sound(s.room_names(), req.roomname);
            }
        },
        Event::Send(req) => {
            if requester(req.client) is Ok && req.message is Some && req.roomname.len() > 0
                && s.find_room(req.roomname) is Some {
                lemma_position_sound(s.room_names(), req.roomname);
            }
        },
        _ => {},
    }
}

/// The state after a run of calls to create a room, each with the time at
/// which it is served.
pub open spec fn after_creates(
    s: StateView,
    calls: Seq<(CreateRoomRequestView, u64)>,
) -> StateView
    decreases calls.len(),
{
    if calls.len() == 0 {
        s
    } else {
        after_creates(s, calls.drop_last()).createroom(calls.last().0, calls.last().1).0
    }
}

/// What the call at position `k` of such a run is told.
pub open spec fn create_outcome(
    s: StateView,
    calls: Seq<(CreateRoomRequestView, u64)>,
    k: int,
) -> Result<ReplyView, ChatError> {
    after_creates(s, calls.take(k)).createroom(calls[k].0, calls[k].1).1
}

/// Of any number of calls that create a room of one name that no room has
/// yet, in whatever order they are served, the first served succeeds, every
/// other is told that the room exists, and afterwards exactly one room has
/// that name.
pub proof fn lemma_one_creation_wins(
    s: StateView,
    calls: Seq<(CreateRoomRequestView, u64)>,
    name: Seq<char>,
)
    requires
        s.wf(),
        calls.len() >= 1,
        name.len() > 0,
        s.find_room(name) is None,
        forall|k: int|
            0 <= k < calls.len() ==> requester((#[trigger] calls[k]).0.client) is Ok
                && calls[k].0.roomname == name,
    ensures
        create_outcome(s, calls, 0) is Ok,
        forall|k: int| 1 <= k < calls.len() ==> create_outcome(s, calls, k) == Err::<
            ReplyView,
            ChatError,
        >(ChatError::RoomExists),
        after_creates(s, calls).wf(),
        after_creates(s, calls).rooms_named(name) == 1,
{
    assert(calls.take(0) =~= Seq::empty());
    assert forall|k: int| 1 <= k < calls.len() implies create_outcome(s, calls, k) == Err::<
        ReplyView,
        ChatError,
    >(ChatError::RoomExists) by {
        lemma_creates_prefix(s, calls, name, k);
    }
    lemma_creates_prefix(s, calls, name, calls.len() as int);
    assert(calls.take(calls.len() as int) =~= calls);
}

/// After the first `n` calls of such a run the room exists, once.
proof fn lemma_creates_prefix(
    s: StateView,
    calls: Seq<(CreateRoomRequestView, u64)>,
    name: Seq<char>,
    n: int,
)
    requires
        s.wf(),
        name.len() > 0,
        s.find_room(name) is None,
        1 <= n <= calls.len(),
        forall|k: int|
            0 <= k < calls.len() ==> requester((#[trigger] calls[k]).0.client) is Ok
                && calls[k].0.roomname == name,
    ensures
        after_creates(s, calls.take(n)).wf(),
        after_creates(s, calls.take(n)).find_room(name) is Some,
        after_creates(s, calls.take(n)).rooms_named(name) == 1,
    decreases n,
{
    let prefix = calls.take(n);
    assert(prefix.drop_last() =~= calls.take(n - 1));
    assert(prefix.last() == calls[n - 1]);
    let before = after_creates(s, calls.take(n - 1));
    let call = calls[n - 1];
    if n == 1 {
        assert(calls.take(0) =~= Seq::empty());
        assert(before == s);
    } else {
        lemma_creates_prefix(s, calls, name, n - 1);
    }
    let after = before.createroom(call.0, call.1).0;
    assert(after == before.step(Event::CreateRoom(call.0, call.1)));
    lemma_step_wf(before, Event::CreateRoom(call.0, call.1));
    lemma_position_sound(before.room_names(), name);
    if before.find_room(name) is None {
        lemma_position_push(before.room_names(), name, name);
        assert(after.room_names() =~= before.room_names().push(name));
    }
    lemma_position_sound(after.room_names(), name);
    lemma_count_once(after.room_names(), name);
}

/// A heartbeat of a member with cursor `k`, in a room whose log has `n`
/// entries and `k <= n`, is answered with exactly the entries from `k` to the
/// end, in the order of the log; with `k == n`, with none. The logs stay as
/// they are.
pub proof fn lemma_heartbeat_delta(s: StateView, req: HeartBeatRequestView, now: u64, i: int)
    requires
        s.wf(),
        requester(req.client) is Ok,
        s.find_room(req.roomname) == Some(i),
        s.rooms[i].has_member(requester(req.client)->Ok_0),
        req.msgnum <= s.rooms[i].messages.len(),
    ensures
        s.heartbeat(req, now).1 is Ok,
        s.heartbeat(req, now).1->Ok_0.response.messages == s.rooms[i].messages.subrange(
            req.msgnum as int,
            s.rooms[i].messages.len() as int,
        ),
        s.heartbeat(req, now).1->Ok_0.response.messages.len() == s.rooms[i].messages.len()
            - req.msgnum,
        forall|j: int|
            0 <= j < s.rooms[i].messages.len() - req.msgnum ==> s.heartbeat(
                req,
                now,
            ).1->Ok_0.response.messages[j] == s.rooms[i].messages[req.msgnum + j],
        s.heartbeat(req, now).0.rooms == s.rooms,
{
    lemma_room_found(s, req.roomname);
}

/// A room that is found stands where it was found, under the name asked
/// for, and that name is not empty.
pub proof fn lemma_room_found(s: StateView, name: Seq<char>)
    requires
        s.wf(),
    ensures
        s.find_room(name) matches Some(i) ==> 0 <= i < s.rooms.len() && s.rooms[i].name == name
            && name.len() > 0 && i < s.online.len(),
        s.find_room(name) is None ==> forall|i: int|
            0 <= i < s.rooms.len() ==> (#[trigger] s.rooms[i]).name != name,
{
    lemma_position_sound(s.room_names(), name);
    if s.find_room(name) is None {
        assert forall|i: int| 0 <= i < s.rooms.len() implies (#[trigger] s.rooms[i]).name
            != name by {
            assert(s.room_names()[i] == s.rooms[i].name);
            assert(s.room_names().contains(s.room_names()[i]));
        }
    } else {
        let i = s.find_room(name)->0;
        assert(s.room_names()[i] == s.rooms[i].name);
    }
}

/// Whoever joins a room that exists is told its whole log, is a member of it
/// afterwards and is online in it; the logs stay as they are, and who was a
/// member or online stays so.
pub proof fn lemma_join_effect(s: StateView, req: JoinRequestView, i: int)
    requires
        s.wf(),
        requester(req.client) is Ok,
        s.find_room(req.roomname) == Some(i),
    ensures
        s.join(req).1 is Ok,
        s.join(req).1->Ok_0.response.messages == s.rooms[i].messages,
        s.join(req).0.rooms[i].messages == s.rooms[i].messages,
        s.join(req).0.rooms[i].has_member(requester(req.client)->Ok_0),
        s.join(req).0.online_in(req.roomname).contains(requester(req.client)->Ok_0),
        forall|user: Seq<char>|
            s.rooms[i].has_member(user) ==> s.join(req).0.rooms[i].has_member(user),
        forall|room: Seq<char>, user: Seq<char>|
            s.online_in(room).contains(user) ==> #[trigger] s.join(req).0.online_in(
                room,
            ).contains(user),
{
    let name = requester(req.client)->Ok_0;
    let t = s.join(req).0;
    lemma_room_found(s, req.roomname);
    assert(t.room_names() =~= s.room_names());
    lemma_with_name(s.online[i], name);
    if !s.rooms[i].has_member(name) {
        let n = s.rooms[i].clients.len() as int;
        assert(t.rooms[i].clients[n].name() == Some(name));
    }
    assert forall|user: Seq<char>| s.rooms[i].has_member(user) implies t.rooms[i].has_member(
        user,
    ) by {
        let k = choose|k: int|
            0 <= k < s.rooms[i].clients.len() && #[trigger] s.rooms[i].clients[k].name() == Some(
                user,
            );
        assert(t.rooms[i].clients[k].name() == Some(user));
    }
    assert forall|room: Seq<char>, user: Seq<char>| s.online_in(room).contains(user) implies
        #[trigger] t.online_in(room).contains(user) by {
        lemma_room_found(s, room);
        let at = s.find_room(room)->0;
        if at != i {
            assert(t.online[at] == s.online[at]);
        }
    }
}

/// Whoever leaves a room is not online in it afterwards; everybody else, in
/// every room, is online exactly where they were, and where there is no such
/// room nothing changes. Member lists and logs stay as they are.
pub proof fn lemma_exit_effect(s: StateView, req: ExitRoomRequestView)
    requires
        s.wf(),
        requester(req.client) is Ok,
        req.roomname.len() > 0,
    ensures
        s.exitroom(req).1 is Ok,
        s.exitroom(req).0.rooms == s.rooms,
        !s.exitroom(req).0.online_in(req.roomname).contains(requester(req.client)->Ok_0),
        forall|room: Seq<char>, user: Seq<char>|
            #[trigger] s.exitroom(req).0.online_in(room).contains(user) <==> s.online_in(
                room,
            ).contains(user) && !(room == req.roomname && user == requester(req.client)->Ok_0),
        s.find_room(req.roomname) is None ==> s.exitroom(req).0 == s,
{
    let name = requester(req.client)->Ok_0;
    let t = s.exitroom(req).0;
    assert(t.room_names() =~= s.room_names());
    lemma_room_found(s, req.roomname);
    if s.find_room(req.roomname) is Some {
        let i = s.find_room(req.roomname)->0;
        lemma_without_name(s.online[i], name);
        assert forall|room: Seq<char>, user: Seq<char>|
            #[trigger] t.online_in(room).contains(user) <==> s.online_in(room).contains(user) && !(
            room == req.roomname && user == name) by {
            lemma_room_found(s, room);
            if s.find_room(room) is Some {
                let at = s.find_room(room)->0;
                if at != i {
                    assert(t.online[at] == s.online[at]);
                }
            }
        }
    }
}

/// What a participant has taken in of a log, and what a heartbeat with its
/// cursor brings, make up the log: nothing is left out and nothing comes
/// twice, and the cursor moved on by what came stands at the end of the log.
pub proof fn lemma_cursor_catches_up(log: Seq<MessageView>, cursor: int)
    requires
        0 <= cursor <= log.len(),
    ensures
        log.take(cursor) + delta(log, cursor) == log,
        cursor + delta(log, cursor).len() == log.len(),
{
    assert(log.take(cursor) + delta(log, cursor) =~= log);
}

/// The same heartbeat sent again, as after a reply that got lost, is
/// answered as the first was, whenever each of the two is served.
pub proof fn lemma_heartbeat_retry(s: StateView, req: HeartBeatRequestView, first: u64, again: u64)
    ensures
        s.heartbeat(req, first).0.heartbeat(req, again).1 == s.heartbeat(req, first).1,
        s.heartbeat(req, first).0.heartbeat(req, again).0.rooms == s.rooms,
{
    let mid = s.heartbeat(req, first).0;
    assert(mid.room_names() =~= s.room_names());
}

/// Whoever is online in a room after a call or a tick, and was not before,
/// has just joined it: the event is that user's join of that room.
pub proof fn lemma_online_only_by_join(
    s: StateView,
    event: Event,
    room: Seq<char>,
    user: Seq<char>,
)
    requires
        s.wf(),
        s.step(event).online_in(room).contains(user),
        !s.online_in(room).contains(user),
    ensures
        event matches Event::Join(req) && req.roomname == room && requester(req.client) == Ok::<
            Seq<char>,
            ChatError,
        >(user),
{
    let t = s.step(event);
    lemma_position_sound(s.room_names(), room);
    lemma_position_sound(t.room_names(), room);
    match event {
        Event::Signup(req) => {
            assert(t.room_names() =~= s.room_names());
        },
        Event::Join(req) => {
            assert(t.room_names() =~= s.room_names());
            if requester(req.client) is Ok && req.roomname.len() > 0 && s.find_room(req.roomname)
                is Some {
                let i = s.find_room(req.roomname)->0;
                lemma_position_sound(s.room_names(), req.roomname);
                lemma_with_name(s.online[i], requester(req.client)->Ok_0);
                let at = t.find_room(room)->0;
                if at == i {
                    assert(s.room_names()[i] == room);
                }
            }
        },
        Event::Heartbeat(req, now) => {
            assert(t.room_names() =~= s.room_names());
        },
        Event::Send(req) => {
            assert(t.room_names() =~= s.room_names());
        },
        Event::GetRooms(req) => {},
        Event::GetUsers(req) => {},
        Event::CreateRoom(req, now) => {
            if requester(req.client) is Ok && req.roomname.len() > 0 && s.find_room(req.roomname)
                is None {
                lemma_position_sound(s.room_names(), req.roomname);
                lemma_position_push(s.room_names(), req.roomname, room);
                assert(t.room_names() =~= s.room_names().push(req.roomname));
            }
        },
        Event::ExitRoom(req) => {
            assert(t.room_names() =~= s.room_names());
            if requester(req.client) is Ok && req.roomname.len() > 0 && s.find_room(req.roomname)
                is Some {
                let i = s.find_room(req.roomname)->0;
                lemma_without_name(s.online[i], requester(req.client)->Ok_0);
            }
        },
        Event::Tick(now) => {
            assert(t.room_names() =~= s.room_names());
            let at = t.find_room(room)->0;
            lemma_only_fresh(s.online[at], s.last_active, now);
        },
    }
}

/// A tick puts nobody online: in every room, those online after it are
/// those who were online before it and have a fresh heartbeat.
pub proof fn lemma_tick_only_removes(s: StateView, now: u64, room: Seq<char>, user: Seq<char>)
    requires
        s.wf(),
    ensures
        s.expire(now).online_in(room).contains(user) <==> s.online_in(room).contains(user)
            && fresh(s.last_active, user, now),
{
    let t = s.expire(now);
    assert(t.room_names() =~= s.room_names());
    lemma_position_sound(s.room_names(), room);
    if s.find_room(room) is Some {
        let at = s.find_room(room)->0;
        lemma_only_fresh(s.online[at], s.last_active, now);
    }
}

/// Whether `event` is `user` joining `room`.
pub open spec fn is_join_of(event: Event, room: Seq<char>, user: Seq<char>) -> bool {
    event matches Event::Join(req) && req.roomname == room && requester(req.client) == Ok::<
        Seq<char>,
        ChatError,
    >(user)
}

/// Whoever is not online in a room stays so through any run of calls and
/// ticks in which that user does not join that room: time alone, and no call
/// but a join, brings nobody back.
pub proof fn lemma_offline_until_join(
    s: StateView,
    events: Seq<Event>,
    room: Seq<char>,
    user: Seq<char>,
)
    requires
        s.wf(),
        !s.online_in(room).contains(user),
        forall|k: int| 0 <= k < events.len() ==> !is_join_of(#[trigger] events[k], room, user),
    ensures
        s.run(events).wf(),
        !s.run(events).online_in(room).contains(user),
    decreases events.len(),
{
    if events.len() > 0 {
        let front = events.drop_last();
        assert forall|k: int| 0 <= k < front.len() implies !is_join_of(
            #[trigger] front[k],
            room,
            user,
        ) by {
            assert(front[k] == events[k]);
        }
        lemma_offline_until_join(s, front, room, user);
        let mid = s.run(front);
        lemma_step_wf(mid, events.last());
        if mid.step(events.last()).online_in(room).contains(user) {
            lemma_online_only_by_join(mid, events.last(), room, user);
            assert(is_join_of(events[events.len() - 1], room, user));
        }
    }
}

/// A signup for an account that exists, with a password that is not the
/// stored one, is answered with `PasswordWrong` and changes nothing.
pub proof fn lemma_signup_wrong_password(s: StateView, req: UserSignupRequestView, i: int)
    requires
        s.wf(),
        requester(req.client) is Ok,
        req.password.len() > 0,
        s.find_user(requester(req.client)->Ok_0) == Some(i),
        s.users[i].password != req.password,
    ensures
        s.signup(req).0 == s,
        s.signup(req).1 is Ok,
        s.signup(req).1->Ok_0.response.code == ResponseCode::PasswordWrong,
{
}

/// A signup for an account that exists, with the stored password, is
/// answered with `Success` and changes nothing.
pub proof fn lemma_signup_again(s: StateView, req: UserSignupRequestView, i: int)
    requires
        s.wf(),
        requester(req.client) is Ok,
        s.find_user(requester(req.client)->Ok_0) == Some(i),
        s.users[i].password == req.password,
    ensures
        s.signup(req).0 == s,
        s.signup(req).1 is Ok,
        s.signup(req).1->Ok_0.response.code == ResponseCode::Success,
{
    lemma_position_sound(s.user_names(), requester(req.client)->Ok_0);
}

/// The first signup for a name stores its password: a second one for the
/// same name with another password is answered with `PasswordWrong`, and the
/// stored password is still the first.
pub proof fn lemma_first_password_stays(
    s: StateView,
    first: UserSignupRequestView,
    second: UserSignupRequestView,
    name: Seq<char>,
)
    requires
        s.wf(),
        requester(first.client) == Ok::<Seq<char>, ChatError>(name),
        requester(second.client) == Ok::<Seq<char>, ChatError>(name),
        s.find_user(name) is None,
        first.password.len() > 0,
        second.password.len() > 0,
        second.password != first.password,
    ensures
        s.signup(first).1 is Ok,
        s.signup(first).1->Ok_0.response.code == ResponseCode::Success,
        s.signup(first).0.signup(second).1 is Ok,
        s.signup(first).0.signup(second).1->Ok_0.response.code == ResponseCode::PasswordWrong,
        s.signup(first).0.signup(second).0 == s.signup(first).0,
        s.signup(first).0.find_user(name) is Some,
        s.signup(first).0.users[s.signup(first).0.find_user(name)->0].password == first.password,
{
    let mid = s.signup(first).0;
    lemma_position_sound(s.user_names(), name);
    lemma_position_push(s.user_names(), name, name);
    assert(mid.user_names() =~= s.user_names().push(name));
    lemma_position_sound(mid.user_names(), name);
}

/// The file of a room is read as a room, and as a user only where the name
/// of the room itself holds the user marker.
pub proof fn lemma_room_file_markers(name: Seq<char>)
    ensures
        has_marker(room_file(name), room_marker()),
        has_marker(room_file(name), user_marker()) <==> has_marker(name, user_marker()),
{
    let file = room_file(name);
    assert(file.subrange(0, 4) =~= room_marker());
    assert(occurs_at(file, room_marker(), 0));
    if has_marker(name, user_marker()) {
        let k = choose|k: int| occurs_at(name, user_marker(), k);
        assert(file.subrange(k + 5, k + 5 + 4) =~= name.subrange(k, k + 4));
        assert(occurs_at(file, user_marker(), k + 5));
    }
    if has_marker(file, user_marker()) {
        let k = choose|k: int| occurs_at(file, user_marker(), k);
        assert(file.subrange(k, k + 4)[0] == 'u');
        assert(file[k] == 'u');
        assert(k >= 5);
        assert(name.subrange(k - 5, k - 5 + 4) =~= file.subrange(k, k + 4));
        assert(occurs_at(name, user_marker(), k - 5));
    }
}

/// The file of a user is read as a user, and as a room only where the name
/// of the user itself holds the room marker.
pub proof fn lemma_user_file_markers(name: Seq<char>)
    ensures
        has_marker(user_file(name), user_marker()),
        has_marker(user_file(name), room_marker()) <==> has_marker(name, room_marker()),
{
    let file = user_file(name);
    assert(file.subrange(0, 4) =~= user_marker());
    assert(occurs_at(file, user_marker(), 0));
    if has_marker(name, room_marker()) {
        let k = choose|k: int| occurs_at(name, room_marker(), k);
        assert(file.subrange(k + 5, k + 5 + 4) =~= name.subrange(k, k + 4));
        assert(occurs_at(file, room_marker(), k + 5));
    }
    if has_marker(file, room_marker()) {
        let k = choose|k: int| occurs_at(file, room_marker(), k);
        assert(file.subrange(k, k + 4)[0] == 'r');
        assert(file.subrange(k, k + 4)[1] == 'o');
        assert(file[k] == 'r');
        assert(file[k + 1] == 'o');
        assert(k >= 5);
        assert(name.subrange(k - 5, k - 5 + 4) =~= file.subrange(k, k + 4));
        assert(occurs_at(name, room_marker(), k - 5));
    }
}

/// Whether a file is read once, as the kind of thing it holds: its name
/// carries the marker of that kind and not the other.
pub open spec fn read_as_own_kind(record: FileRecordView) -> bool {
    match record.entity {
        EntityView::Room(_) => has_marker(record.name, room_marker()) && !has_marker(
            record.name,
            user_marker(),
        ),
        EntityView::User(_) => has_marker(record.name, user_marker()) && !has_marker(
            record.name,
            room_marker(),
        ),
    }
}

/// Whether no room of `s` has a name that holds the user marker, and no user
/// a name that holds the room marker.
pub open spec fn names_keep_kinds_apart(s: StateView) -> bool {
    &&& forall|i: int|
        0 <= i < s.rooms.len() ==> !has_marker((#[trigger] s.rooms[i]).name, user_marker())
    &&& forall|i: int|
        0 <= i < s.users.len() ==> !has_marker((#[trigger] s.users[i]).name, room_marker())
}

/// What a server started at `now` on the files of a flush of `s` holds: the
/// rooms and users of `s`, nobody online, no heartbeat on record.
pub open spec fn restarted(s: StateView, now: u64) -> StateView {
    StateView {
        rooms: s.rooms,
        users: s.users,
        online: Seq::new(s.rooms.len(), |i: int| Seq::<Seq<char>>::empty()),
        last_active: Map::empty(),
        uptime: now,
    }
}

/// A server started on the files of a flush holds every room and every user
/// as they were flushed: names, settings, member lists, logs and passwords.
/// This holds where every file is read as what it holds, which is so where
/// no room's name holds the user marker and no user's name the room marker.
pub proof fn lemma_flush_then_load(s: StateView, now: u64)
    requires
        s.wf(),
        names_keep_kinds_apart(s),
    ensures
        forall|k: int|
            0 <= k < records_of(s).len() ==> read_as_own_kind(#[trigger] records_of(s)[k]),
        loaded(records_of(s), now) == Ok::<StateView, LoadError>(restarted(s, now)),
{
    let records = records_of(s);
    assert forall|k: int| 0 <= k < records.len() implies read_as_own_kind(
        #[trigger] records[k],
    ) by {
        if k < s.rooms.len() {
            lemma_room_file_markers(s.rooms[k].name);
        } else {
            lemma_user_file_markers(s.users[k - s.rooms.len()].name);
        }
    }
    lemma_restore_flush_prefix(s, records.len() as int);
    assert(records.take(records.len() as int) =~= records);
    let end = flushed_prefix(s, records.len() as int);
    assert(end.rooms =~= s.rooms);
    assert(end.users =~= s.users);
    assert(end.online =~= restarted(s, now).online);
}

/// What the first `n` files of a flush of `s` restore.
pub open spec fn flushed_prefix(s: StateView, n: int) -> StateView {
    let rooms = if n <= s.rooms.len() {
        n
    } else {
        s.rooms.len() as int
    };
    StateView {
        rooms: s.rooms.take(rooms),
        users: s.users.take(n - rooms),
        online: Seq::new(rooms as nat, |i: int| Seq::<Seq<char>>::empty()),
        last_active: Map::empty(),
        uptime: 0,
    }
}

proof fn lemma_restore_flush_prefix(s: StateView, n: int)
    requires
        s.wf(),
        0 <= n <= records_of(s).len(),
    ensures
        restore_all(StateView::empty(), records_of(s).take(n)) == Ok::<StateView, LoadError>(
            flushed_prefix(s, n),
        ),
    decreases n,
{
    let records = records_of(s);
    if n == 0 {
        assert(records.take(0) =~= Seq::empty());
        assert(flushed_prefix(s, 0).rooms =~= Seq::empty());
        assert(flushed_prefix(s, 0).users =~= Seq::empty());
        assert(flushed_prefix(s, 0).online =~= Seq::empty());
    } else {
        lemma_restore_flush_prefix(s, n - 1);
        let prefix = records.take(n);
        assert(prefix.drop_last() =~= records.take(n - 1));
        let record = records[n - 1];
        assert(prefix.last() == record);
        let before = flushed_prefix(s, n - 1);
        let after = flushed_prefix(s, n);
        if n - 1 < s.rooms.len() {
            let room = s.rooms[n - 1];
            assert(record == room_record(room));
            lemma_room_file_markers(room.name);
            assert(room.wf());
            assert(before.room_names() =~= s.room_names().take(n - 1));
            lemma_position_sound(before.room_names(), room.name);
            if before.room_names().contains(room.name) {
                let j = before.room_names().index_of(room.name);
                assert(s.room_names()[j] == s.room_names()[n - 1]);
            }
            assert(after.rooms =~= before.rooms.push(room));
            assert(after.users =~= before.users);
            assert(after.online =~= before.online.push(Seq::empty()));
            assert(restore_one(before, record) == Ok::<StateView, LoadError>(after));
        } else {
            let at = n - 1 - s.rooms.len();
            let user = s.users[at];
            assert(record == user_record(user));
            lemma_user_file_markers(user.name);
            assert(before.user_names() =~= s.user_names().take(at));
            lemma_position_sound(before.user_names(), user.name);
            if before.user_names().contains(user.name) {
                let j = before.user_names().index_of(user.name);
                assert(s.user_names()[j] == s.user_names()[at]);
            }
            assert(after.rooms =~= before.rooms);
            assert(after.users =~= before.users.push(user));
            assert(after.online =~= before.online);
            assert(restore_one(before, record) == Ok::<StateView, LoadError>(after));
        }
    }
}

} // verus!
