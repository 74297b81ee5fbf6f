//! A participant's session: who it is, what it is about to ask, and how far
//! it has read the room it is in. Sending a request and showing a line are
//! the caller's part; building the request and reading the reply are here.

use crate::chat::{
    clone_opt_string, Client as Identity, ClientView, CreateRoomRequest, CreateRoomRequestView,
    Device, ExitRoomRequest, ExitRoomRequestView, GetRoomsRequest, GetRoomsRequestView,
    GetUsersRequest, GetUsersRequestView, HeartBeatRequest, HeartBeatRequestView, JoinRequest,
    JoinRequestView, Message, MessageType, MessageView, ResponseCode, RoomInfoView, SendRequest,
    SendRequestView, ServerResponse, User, UserSignupRequest, UserSignupRequestView, UserView,
};
use crate::common::now_milli_seconds;
use vstd::prelude::*;
use vstd::string::{StrSliceExecFns, StringExecFns};
use vstd::utf8::encode_utf8;

verus! {

/// What the participant is about to ask for.
#[derive(Debug, PartialEq, Eq)]
pub struct ClientReq {
    pub roomname: Option<String>,
    pub room_password: Option<String>,
    pub history_visible: Option<bool>,
    pub send_str: Option<String>,
}

impl Clone for ClientReq {
    fn clone(&self) -> (r: Self)
        ensures
            r.roomname.deep_view() == self.roomname.deep_view(),
            r.room_password.deep_view() == self.room_password.deep_view(),
            r.history_visible == self.history_visible,
            r.send_str.deep_view() == self.send_str.deep_view(),
    {
        ClientReq {
            roomname: clone_opt_string(&self.roomname),
            room_password: clone_opt_string(&self.room_password),
            history_visible: self.history_visible,
            send_str: clone_opt_string(&self.send_str),
        }
    }
}

impl Default for ClientReq {
    fn default() -> (r: Self)
        ensures
            r.roomname is None,
            r.room_password is None,
            r.history_visible is None,
            r.send_str is None,
    {
        ClientReq { roomname: None, room_password: None, history_visible: None, send_str: None }
    }
}

/// How far the session has come.
#[derive(Debug, PartialEq, Eq)]
pub struct ClientState {
    pub lastupdate_time: u64,
    /// The room the participant is in, if any.
    pub cur_roomname: Option<String>,
    /// The cursor: how many messages of that room have been taken in.
    pub msgnum: u32,
}

/// A participant's session.
#[derive(Debug, PartialEq, Eq)]
pub struct Client {
    pub state: ClientState,
    pub username: String,
    pub password: String,
    pub req: ClientReq,
}

/// One line to show.
#[derive(Debug, PartialEq, Eq)]
pub enum Line {
    /// A notice of the server.
    Info(String),
    /// A message of the room.
    Chat(Message),
}

pub enum LineView {
    Info(Seq<char>),
    Chat(MessageView),
}

impl DeepView for Line {
    type V = LineView;

    open spec fn deep_view(&self) -> LineView {
        match self {
            Line::Info(text) => LineView::Info(text@),
            Line::Chat(message) => LineView::Chat(message@),
        }
    }
}

impl View for Line {
    type V = LineView;

    open spec fn view(&self) -> LineView {
        self.deep_view()
    }
}

/// The server's reply to a signup said that the password is wrong.
#[derive(Debug, PartialEq, Eq, Clone, Copy, Structural)]
pub struct PasswordIsWrong {}

/// The notice of a reply, if it has one, as the first line to show.
pub open spec fn notice(extra_info: Seq<char>) -> Seq<LineView> {
    if extra_info.len() == 0 {
        Seq::empty()
    } else {
        seq![LineView::Info(extra_info)]
    }
}

/// Whether a message has a sender with a username.
pub open spec fn has_sender(message: MessageView) -> bool {
    message.client is Some && message.client->0.user is Some
}

/// The test that a message was not sent by `name`.
pub open spec fn not_from(name: Seq<char>) -> spec_fn(MessageView) -> bool {
    |message: MessageView| message.client->0.user->0.name != name
}

/// Each message as a line.
pub open spec fn chat_lines(messages: Seq<MessageView>) -> Seq<LineView> {
    Seq::new(messages.len(), |i: int| LineView::Chat(messages[i]))
}

/// `names` in one text, a comma between each two.
pub open spec fn comma_joined(names: Seq<Seq<char>>) -> Seq<char>
    decreases names.len(),
{
    if names.len() == 0 {
        Seq::empty()
    } else if names.len() == 1 {
        names[0]
    } else {
        comma_joined(names.drop_last()).push(',') + names.last()
    }
}

/// `names` in one text, a comma between each two.
pub fn join_with_commas(names: &Vec<String>) -> (text: String)
    ensures
        text@ == comma_joined(names.deep_view()),
{
    let mut text = String::new();
    let mut i: usize = 0;
    assert(names.deep_view().take(0) =~= Seq::empty());
    while i < names.len()
        invariant
            i <= names.len(),
            text@ == comma_joined(names.deep_view().take(i as int)),
        decreases names.len() - i,
    {
        proof {
            let next = names.deep_view().take(i + 1);
            assert(next.drop_last() =~= names.deep_view().take(i as int));
            assert(next.last() == names[i as int]@);
            reveal_strlit(",");
            assert(","@ =~= seq![',']);
        }
        if i > 0 {
            text.append(",");
            assert(text@ =~= comma_joined(names.deep_view().take(i as int)).push(','));
        } else {
            assert(text@ + names[i as int]@ =~= names[i as int]@);
        }
        text.append(names[i].as_str());
        i += 1;
    }
    assert(names.deep_view().take(i as int) =~= names.deep_view());
    text
}

/// What to show of one room of a listing.
#[derive(Debug, PartialEq, Eq)]
pub struct RoomLine {
    pub name: String,
    /// The username of the creator.
    pub manner: String,
    /// Who is online, a comma between each two.
    pub online: String,
}

/// Whether a line of a listing names its creator.
pub open spec fn has_creator(info: RoomInfoView) -> bool {
    info.manner is Some && info.manner->0.user is Some
}

impl Client {
    /// A session that has asked for nothing yet.
    pub fn new(username: String, password: String) -> (client: Client)
        ensures
            client.username@ == username@,
            client.password@ == password@,
            client.state.msgnum == 0,
            client.state.lastupdate_time == 0,
            client.state.cur_roomname is None,
            client.req.roomname is None,
            client.req.room_password is None,
            client.req.history_visible is None,
            client.req.send_str is None,
    {
        Client {
            state: ClientState { lastupdate_time: 0, cur_roomname: None, msgnum: 0 },
            username,
            password,
            req: ClientReq::default(),
        }
    }

    /// The identity that every request of this session carries.
    pub open spec fn identity(&self) -> ClientView {
        ClientView {
            user: Some(
                UserView { name: self.username@, password: self.password@, gender: Some(1i32) },
            ),
            device: Some(Device {  }),
        }
    }

    /// The identity that every request of this session carries.
    pub fn me(&self) -> (me: Identity)
        ensures
            me@ == self.identity(),
    {
        Identity {
            user: Some(
                User {
                    name: self.username.clone(),
                    password: self.password.clone(),
                    gender: Some(1),
                },
            ),
            device: Some(Device {  }),
        }
    }

    /// The heartbeat to send: the room asked for, and the cursor.
    pub fn hb_req(&self) -> (r: HeartBeatRequest)
        requires
            self.req.roomname is Some,
        ensures
            r@ == (HeartBeatRequestView {
                client: Some(self.identity()),
                roomname: self.req.roomname->0@,
                room_password: self.req.room_password.deep_view(),
                lasttime: self.state.lastupdate_time,
                msgnum: self.state.msgnum,
            }),
    {
        HeartBeatRequest {
            client: Some(self.me()),
            roomname: room_of(&self.req),
            room_password: clone_opt_string(&self.req.room_password),
            lasttime: self.state.lastupdate_time,
            msgnum: self.state.msgnum,
        }
    }

    /// The request to join the room asked for.
    pub fn jn_req(&self) -> (r: JoinRequest)
        requires
            self.req.roomname is Some,
        ensures
            r@ == (JoinRequestView {
                client: Some(self.identity()),
                roomname: self.req.roomname->0@,
                room_password: self.req.room_password.deep_view(),
            }),
    {
        JoinRequest {
            client: Some(self.me()),
            roomname: room_of(&self.req),
            room_password: clone_opt_string(&self.req.room_password),
        }
    }

    /// The request to sign up, or to log in.
    pub fn su_req(&self) -> (r: UserSignupRequest)
        ensures
            r@ == (UserSignupRequestView {
                client: Some(self.identity()),
                password: self.password@,
            }),
    {
        UserSignupRequest { client: Some(self.me()), password: self.password.clone() }
    }

    /// The request to list the rooms.
    pub fn gr_req(&self) -> (r: GetRoomsRequest)
        ensures
            r@ == (GetRoomsRequestView { client: Some(self.identity()) }),
    {
        GetRoomsRequest { client: Some(self.me()) }
    }

    /// The request to list the users.
    pub fn gu_req(&self) -> (r: GetUsersRequest)
        ensures
            r@ == (GetUsersRequestView { client: Some(self.identity()) }),
    {
        GetUsersRequest { client: Some(self.me()) }
    }

    /// The request to create the room asked for.
    pub fn cr_req(&self) -> (r: CreateRoomRequest)
        requires
            self.req.roomname is Some,
            self.req.history_visible is Some,
        ensures
            r@ == (CreateRoomRequestView {
                client: Some(self.identity()),
                roomname: self.req.roomname->0@,
                password: self.req.room_password.deep_view(),
                history_visible: self.req.history_visible->0,
            }),
    {
        let history_visible = match self.req.history_visible {
            Some(v) => v,
            None => false,
        };
        CreateRoomRequest {
            client: Some(self.me()),
            roomname: room_of(&self.req),
            password: clone_opt_string(&self.req.room_password),
            history_visible,
        }
    }

    /// The request to leave the room called `cur_rn`.
    pub fn er_req(&self, cur_rn: String) -> (r: ExitRoomRequest)
        ensures
            r@ == (ExitRoomRequestView { client: Some(self.identity()), roomname: cur_rn@ }),
    {
        ExitRoomRequest { client: Some(self.me()), roomname: cur_rn }
    }

    /// The request to send the text asked for, stamped `now`: the message
    /// holds the bytes of the text in UTF-8.
    pub fn sd_req_at(&self, now: u64) -> (r: SendRequest)
        requires
            self.req.roomname is Some,
            self.req.send_str is Some,
        ensures
            r@ == (SendRequestView {
                client: Some(self.identity()),
                roomname: self.req.roomname->0@,
                message: Some(
                    MessageView {
                        client: Some(self.identity()),
                        bytes: encode_utf8(self.req.send_str->0@),
                        time: now,
                        msg_type: MessageType::Text.code(),
                    },
                ),
                room_password: self.req.room_password.deep_view(),
            }),
    {
        let bytes = match &self.req.send_str {
            Some(text) => text.as_str().as_bytes_vec(),
            None => Vec::new(),
        };
        SendRequest {
            client: Some(self.me()),
            roomname: room_of(&self.req),
            message: Some(
                Message {
                    client: Some(self.me()),
                    bytes,
                    time: now,
                    msg_type: MessageType::Text.number(),
                },
            ),
            room_password: clone_opt_string(&self.req.room_password),
        }
    }

    /// `sd_req_at` with the time read from the system clock.
    pub fn sd_req(&self) -> (r: SendRequest)
        requires
            self.req.roomname is Some,
            self.req.send_str is Some,
        ensures
            r@.client == Some(self.identity()),
            r@.roomname == self.req.roomname->0@,
            r@.room_password == self.req.room_password.deep_view(),
            r@.message is Some,
            r@.message->0.client == Some(self.identity()),
            r@.message->0.bytes == encode_utf8(self.req.send_str->0@),
            r@.message->0.msg_type == MessageType::Text.code(),
    {
        self.sd_req_at(now_milli_seconds())
    }

    /// Takes in the reply to a join: the cursor moves on by the messages
    /// received, the room asked for is the room the session is in, and the
    /// lines to show are the notice and every message.
    pub fn join(&mut self, response: &ServerResponse) -> (lines: Vec<Line>)
        requires
            old(self).state.msgnum + response.messages.len() <= u32::MAX,
        ensures
            final(self).state.msgnum == old(self).state.msgnum + response.messages.len(),
            final(self).state.cur_roomname.deep_view() == old(self).req.roomname.deep_view(),
            final(self).state.lastupdate_time == old(self).state.lastupdate_time,
            final(self).username == old(self).username,
            final(self).password == old(self).password,
            final(self).req == old(self).req,
            lines.deep_view() == notice(response@.extra_info) + chat_lines(response@.messages),
    {
        self.state.msgnum = self.state.msgnum + response.messages.len() as u32;
        self.state.cur_roomname = clone_opt_string(&self.req.roomname);
        let mut lines: Vec<Line> = Vec::new();
        if !response.extra_info.as_str().is_empty() {
            lines.push(Line::Info(response.extra_info.clone()));
        }
        assert(lines.deep_view() =~= notice(response@.extra_info));
        let ghost head = lines.deep_view();
        let mut i: usize = 0;
        while i < response.messages.len()
            invariant
                i <= response.messages.len(),
                lines.deep_view() == head + chat_lines(response@.messages.take(i as int)),
            decreases response.messages.len() - i,
        {
            let ghost shown = lines.deep_view();
            let ghost taken = response@.messages.take(i as int);
            lines.push(Line::Chat(response.messages[i].clone()));
            i += 1;
            proof {
                let message = response@.messages[i - 1];
                assert(lines.deep_view() =~= shown.push(LineView::Chat(message)));
                assert(response@.messages.take(i as int) =~= taken.push(message));
                assert(chat_lines(taken.push(message)) =~= chat_lines(taken).push(
                    LineView::Chat(message),
                ));
                assert(lines.deep_view() =~= head + chat_lines(response@.messages.take(i as int)));
            }
        }
        assert(response@.messages.take(i as int) =~= response@.messages);
        lines
    }

    /// Takes in the reply to a heartbeat: the cursor moves on by the
    /// messages received, and the lines to show are the notice and the
    /// messages that others sent.
    pub fn update(&mut self, response: &ServerResponse) -> (lines: Vec<Line>)
        requires
            old(self).state.msgnum + response.messages.len() <= u32::MAX,
            forall|i: int|
                0 <= i < response@.messages.len() ==> has_sender(#[trigger] response@.messages[i]),
        ensures
            final(self).state.msgnum == old(self).state.msgnum + response.messages.len(),
            final(self).state.cur_roomname == old(self).state.cur_roomname,
            final(self).state.lastupdate_time == old(self).state.lastupdate_time,
            final(self).username == old(self).username,
            final(self).password == old(self).password,
            final(self).req == old(self).req,
            lines.deep_view() == notice(response@.extra_info) + chat_lines(
                response@.messages.filter(not_from(old(self).username@)),
            ),
    {
        self.state.msgnum = self.state.msgnum + response.messages.len() as u32;
        let mut lines: Vec<Line> = Vec::new();
        if !response.extra_info.as_str().is_empty() {
            lines.push(Line::Info(response.extra_info.clone()));
        }
        assert(lines.deep_view() =~= notice(response@.extra_info));
        let ghost head = lines.deep_view();
        let ghost others = not_from(self.username@);
        let mut i: usize = 0;
        proof {
            reveal(Seq::filter);
            assert(response@.messages.take(0) =~= Seq::empty());
            assert(chat_lines(Seq::empty()) =~= Seq::empty());
        }
        while i < response.messages.len()
            invariant
                i <= response.messages.len(),
                others == not_from(self.username@),
                forall|i: int|
                    0 <= i < response@.messages.len() ==> has_sender(
                        #[trigger] response@.messages[i],
                    ),
                lines.deep_view() == head + chat_lines(
                    response@.messages.take(i as int).filter(others),
                ),
            decreases response.messages.len() - i,
        {
            let message = &response.messages[i];
            proof {
                assert(response@.messages[i as int] == message@);
                assert(has_sender(response@.messages[i as int]));
                response@.messages.lemma_take_succ_push(i as int);
                response@.messages.take(i as int).lemma_filter_push(message@, others);
            }
            let ghost before = response@.messages.take(i as int).filter(others);
            let ghost shown = lines.deep_view();
            if !sent_by(message, &self.username) {
                lines.push(Line::Chat(message.clone()));
                proof {
                    assert(lines.deep_view() =~= shown.push(LineView::Chat(message@)));
                    assert(chat_lines(before.push(message@)) =~= chat_lines(before).push(
                        LineView::Chat(message@),
                    ));
                    assert(lines.deep_view() =~= head + chat_lines(before.push(message@)));
                }
            }
            i += 1;
        }
        assert(response@.messages.take(i as int) =~= response@.messages);
        lines
    }

    /// Reads the reply to a signup.
    pub fn signup(&self, response: &ServerResponse) -> (r: Result<(), PasswordIsWrong>)
        ensures
            r is Err <==> response.code == ResponseCode::PasswordWrong,
    {
        match response.code {
            ResponseCode::PasswordWrong => Err(PasswordIsWrong {  }),
            ResponseCode::Success => Ok(()),
        }
    }

    /// Reads the reply to a listing of the rooms: for each room its name,
    /// its creator and who is online.
    pub fn listrooms(&self, response: &ServerResponse) -> (lines: Vec<RoomLine>)
        requires
            forall|i: int|
                0 <= i < response@.roominfos.len() ==> has_creator(
                    #[trigger] response@.roominfos[i],
                ),
        ensures
            lines.len() == response@.roominfos.len(),
            forall|i: int|
                0 <= i < lines.len() ==> {
                    &&& (#[trigger] lines[i]).name@ == response@.roominfos[i].name
                    &&& lines[i].manner@ == response@.roominfos[i].manner->0.user->0.name
                    &&& lines[i].online@ == comma_joined(response@.roominfos[i].online_users)
                },
    {
        let mut lines: Vec<RoomLine> = Vec::new();
        let mut i: usize = 0;
        while i < response.roominfos.len()
            invariant
                i <= response.roominfos.len(),
                lines.len() == i,
                forall|i: int|
                    0 <= i < response@.roominfos.len() ==> has_creator(
                        #[trigger] response@.roominfos[i],
                    ),
                forall|j: int|
                    0 <= j < i ==> {
                        &&& (#[trigger] lines[j]).name@ == response@.roominfos[j].name
                        &&& lines[j].manner@ == response@.roominfos[j].manner->0.user->0.name
                        &&& lines[j].online@ == comma_joined(response@.roominfos[j].online_users)
                    },
            decreases response.roominfos.len() - i,
        {
            let info = &response.roominfos[i];
            assert(response@.roominfos[i as int] == info@);
            assert(has_creator(response@.roominfos[i as int]));
            let manner = match &info.manner {
                Some(creator) => creator.username(),
                None => String::new(),
            };
            lines.push(
                RoomLine {
                    name: info.name.clone(),
                    manner,
                    online: join_with_commas(&info.online_users),
                },
            );
            i += 1;
        }
        lines
    }

    /// Reads the reply to a listing of the users: their names.
    pub fn listusers(&self, response: &ServerResponse) -> (names: Vec<String>)
        ensures
            names.deep_view() == Seq::new(
                response@.users.len(),
                |i: int| response@.users[i].name,
            ),
    {
        let mut names: Vec<String> = Vec::new();
        let mut i: usize = 0;
        while i < response.users.len()
            invariant
                i <= response.users.len(),
                names.len() == i,
                forall|j: int| 0 <= j < i ==> (#[trigger] names[j])@ == response@.users[j].name,
            decreases response.users.len() - i,
        {
            names.push(response.users[i].name.clone());
            i += 1;
        }
        assert(names.deep_view() =~= Seq::new(
            response@.users.len(),
            |i: int| response@.users[i].name,
        ));
        names
    }

    /// The session has left its room: no room, the cursor at the start.
    pub fn exitroom(&mut self)
        ensures
            final(self).state.cur_roomname is None,
            final(self).state.msgnum == 0,
            final(self).state.lastupdate_time == 0,
            final(self).username == old(self).username,
            final(self).password == old(self).password,
            final(self).req == old(self).req,
    {
        self.state.lastupdate_time = 0;
        self.state.cur_roomname = None;
        self.state.msgnum = 0;
    }
}

/// The room that `req` asks for.
fn room_of(req: &ClientReq) -> (name: String)
    requires
        req.roomname is Some,
    ensures
        name@ == req.roomname->0@,
{
    match &req.roomname {
        Some(name) => name.clone(),
        None => String::new(),
    }
}

/// Whether `message` was sent by `name`.
fn sent_by(message: &Message, name: &String) -> (yes: bool)
    requires
        has_sender(message@),
    ensures
        yes == (message@.client->0.user->0.name == name@),
{
    match &message.client {
        Some(client) => match &client.user {
            Some(user) => user.name == *name,
            None => false,
        },
        None => false,
    }
}

/// How many digits a drawn name has.
pub const NAME_DIGITS: usize = 5;

/// Whether `b` is an ASCII digit.
pub open spec fn is_digit(b: u8) -> bool {
    0x30 <= b <= 0x39
}

/// The test that a byte is an ASCII digit.
pub open spec fn digits_only() -> spec_fn(u8) -> bool {
    |b: u8| is_digit(b)
}

/// The name that a run of draws gives: the first five ASCII digits among
/// them, in the order drawn. None where they hold fewer.
pub open spec fn digit_name(draws: Seq<u8>) -> Option<Seq<char>> {
    let digits = draws.filter(digits_only());
    if digits.len() >= NAME_DIGITS {
        Some(Seq::new(NAME_DIGITS as nat, |i: int| digits[i] as char))
    } else {
        None
    }
}

/// The text of one ASCII digit.
fn digit_text(b: u8) -> (text: &'static str)
    requires
        is_digit(b),
    ensures
        text@ == seq![b as char],
{
    proof {
        reveal_strlit("0");
        reveal_strlit("1");
        reveal_strlit("2");
        reveal_strlit("3");
        reveal_strlit("4");
        reveal_strlit("5");
        reveal_strlit("6");
        reveal_strlit("7");
        reveal_strlit("8");
        reveal_strlit("9");
    }
    let text = match b {
        0x30 => "0",
        0x31 => "1",
        0x32 => "2",
        0x33 => "3",
        0x34 => "4",
        0x35 => "5",
        0x36 => "6",
        0x37 => "7",
        0x38 => "8",
        _ => "9",
    };
    assert(text@ =~= seq![b as char]);
    text
}

/// The name that `draws` give.
pub fn name_from_draws(draws: &Vec<u8>) -> (name: Option<String>)
    ensures
        name.deep_view() == digit_name(draws@),
{
    let mut text = String::new();
    let mut taken: usize = 0;
    let mut i: usize = 0;
    proof {
        reveal(Seq::filter);
        assert(draws@.take(0) =~= Seq::empty());
    }
    while i < draws.len() && taken < NAME_DIGITS
        invariant
            i <= draws.len(),
            taken <= NAME_DIGITS,
            taken == draws@.take(i as int).filter(digits_only()).len(),
            text@ == Seq::new(
                taken as nat,
                |k: int| draws@.take(i as int).filter(digits_only())[k] as char,
            ),
        decreases draws.len() - i,
    {
        let b = draws[i];
        proof {
            draws@.lemma_take_succ_push(i as int);
            draws@.take(i as int).lemma_filter_push(b, digits_only());
        }
        if 0x30 <= b && b <= 0x39 {
            text.append(digit_text(b));
            taken += 1;
        }
        i += 1;
        assert(text@ =~= Seq::new(
            taken as nat,
            |k: int| draws@.take(i as int).filter(digits_only())[k] as char,
        ));
    }
    proof {
        let seen = draws@.take(i as int);
        let rest = draws@.skip(i as int);
        assert(draws@ =~= seen + rest);
        Seq::filter_distributes_over_add(seen, rest, digits_only());
        let all = draws@.filter(digits_only());
        assert(all == seen.filter(digits_only()) + rest.filter(digits_only()));
        if taken < NAME_DIGITS {
            assert(rest =~= Seq::empty());
            assert(seen =~= draws@);
        } else {
            assert(text@ =~= Seq::new(NAME_DIGITS as nat, |k: int| all[k] as char));
        }
    }
    if taken == NAME_DIGITS {
        Some(text)
    } else {
        None
    }
}

/// One byte of the thread's random number generator.
///
/// Calls `rand::thread_rng` and `Rng::gen::<u8>`. Nothing is claimed of the
/// byte.
#[verifier::external_body]
fn random_byte() -> u8 {
    rand::Rng::gen::<u8>(&mut rand::thread_rng())
}

/// A name of five random digits out of `draws` random bytes; `None` where
/// fewer than five of the bytes drawn are digits.
pub fn random_name(draws: usize) -> (name: Option<String>)
    ensures
        exists|drawn: Seq<u8>| drawn.len() == draws && #[trigger] digit_name(drawn) == name.deep_view(),
{
    let mut drawn: Vec<u8> = Vec::new();
    let mut i: usize = 0;
    while i < draws
        invariant
            i <= draws,
            drawn.len() == i,
        decreases draws - i,
    {
        drawn.push(random_byte());
        i += 1;
    }
    name_from_draws(&drawn)
}

} // verus!
