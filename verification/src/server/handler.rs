//! What the server makes of a packet from the proxy, and the packets and
//! messages it answers with.
use vstd::prelude::*;
use vstd::utf8::{decode_utf8, valid_utf8};
use crate::bigendian::{be_bytes, be_fold};
use crate::common::chat::{
    leaf, lemma_finish_with_extra, lemma_render_leaf, lemma_style_constants, plain, render,
    with_extra, Chat, ChatBuilder, ChatBuilderModel, ChatModel,
};
use crate::util::packet::{
    frame, has_string, has_varint, read_sized, read_string, read_varint, string_at,
    string_bytes, string_read_bytes, varint_at, varint_read, ConnState, Packet, PacketBuilder, state_view,
};
use crate::util::version::{from_protocol, release_name, Version};
use crate::util::packet::{ConnStateView, PacketView};
use crate::common::chat::opt_chars;
use crate::common::packet::join_game::{
    default_join_game, join_game_body, play_state, JoinGamePacketBuilder,
};
use crate::varint::{lemma_scan_bound, lemma_varint32_small, varint32_bytes};
use crate::util::packet::{
    lemma_read_sized_back, lemma_read_string_back, lemma_read_varint_back, varint_exact,
};
use vstd::utf8::encode_utf8;

verus! {

/// What a packet from a client asks of the server.
pub enum Request {
    /// Status state, packet 0: the server's status.
    Status,
    /// Status state, packet 1: a ping with its payload.
    Ping { payload: u64 },
    /// Login state: the player's name.
    LoginStart { username: String },
    /// Play state, packet 0x15: the client's settings, of which its locale.
    ClientSettings { locale: String },
    /// Play state, packet 0x01: a chat message.
    ChatMessage { message: String },
    /// A packet that the server does not answer.
    Ignored,
    /// A packet in a state that the server does not know.
    UnknownState { state: u64 },
}

/// What a [`Request`] holds.
pub enum RequestView {
    Status,
    Ping { payload: u64 },
    LoginStart { username: Seq<char> },
    ClientSettings { locale: Seq<char> },
    ChatMessage { message: Seq<char> },
    Ignored,
    UnknownState { state: u64 },
}

impl View for Request {
    type V = RequestView;

    open spec fn view(&self) -> RequestView {
        match self {
            Request::Status => RequestView::Status,
            Request::Ping { payload } => RequestView::Ping { payload: *payload },
            Request::LoginStart { username } => RequestView::LoginStart { username: username@ },
            Request::ClientSettings { locale } => RequestView::ClientSettings { locale: locale@ },
            Request::ChatMessage { message } => RequestView::ChatMessage { message: message@ },
            Request::Ignored => RequestView::Ignored,
            Request::UnknownState { state } => RequestView::UnknownState { state: *state },
        }
    }
}

/// The string at `offset`, where there is one that is valid UTF-8.
pub open spec fn string_field(data: Seq<u8>, offset: int) -> Option<Seq<char>> {
    if string_at(data, offset) && valid_utf8(string_read_bytes(data, offset)) {
        Some(decode_utf8(string_read_bytes(data, offset)))
    } else {
        None
    }
}

/// What the packet `data` asks in connection state `state` (the proxy's
/// state number; 0 where it has none): after the packet's length and id,
/// each variable-length integers, the fields of the packets that the
/// server answers.  `None` where a field that has to be read is missing or
/// not valid.
pub open spec fn request_of(state: u64, data: Seq<u8>) -> Option<RequestView> {
    if !varint_at(data, 0) || !varint_at(data, varint_read(data, 0).1) {
        None
    } else {
        let (packet_id, offset) = varint_read(data, varint_read(data, 0).1);
        if state == 1 {
            if packet_id == 0 {
                Some(RequestView::Status)
            } else if packet_id == 1 {
                if offset + 8 <= data.len() {
                    Some(RequestView::Ping { payload: be_fold(data.skip(offset), 8) })
                } else {
                    None
                }
            } else {
                Some(RequestView::Ignored)
            }
        } else if state == 2 {
            match string_field(data, offset) {
                Some(username) => Some(RequestView::LoginStart { username }),
                None => None,
            }
        } else if state == 3 {
            if packet_id == 0x15 {
                match string_field(data, offset) {
                    Some(locale) => Some(RequestView::ClientSettings { locale }),
                    None => None,
                }
            } else if packet_id == 0x01 {
                match string_field(data, offset) {
                    Some(message) => Some(RequestView::ChatMessage { message }),
                    None => None,
                }
            } else {
                Some(RequestView::Ignored)
            }
        } else {
            Some(RequestView::UnknownState { state })
        }
    }
}

/// Reads the string at `offset`, where there is one.
fn read_string_field(data: &Vec<u8>, offset: usize) -> (r: Option<String>)
    ensures
        r is None <==> string_field(data@, offset as int) is None,
        r matches Some(s) ==> string_field(data@, offset as int) == Some(s@),
{
    if !has_string(data, offset) {
        return None;
    }
    match read_string(data, offset) {
        Some((s, _)) => Some(s),
        None => None,
    }
}

/// Makes out what the packet `data` asks in connection state `state`.
pub fn parse_request(state: u64, data: &Vec<u8>) -> (r: Option<Request>)
    ensures
        r is None <==> request_of(state, data@) is None,
        r matches Some(q) ==> request_of(state, data@) == Some(q@),
{
    if !has_varint(data, 0) {
        return None;
    }
    let (_, offset) = match read_varint(data, 0) {
        Some(r) => r,
        None => {
            return None;
        },
    };
    if !has_varint(data, offset) {
        return None;
    }
    let (packet_id, offset) = match read_varint(data, offset) {
        Some(r) => r,
        None => {
            return None;
        },
    };
    proof {
        lemma_scan_bound(data@.skip(varint_read(data@, 0).1), 0, 5);
    }
    if state == 1 {
        if packet_id == 0 {
            Some(Request::Status)
        } else if packet_id == 1 {
            if 8 <= data.len() - offset {
                let (payload, _) = read_sized(data, offset, 8);
                Some(Request::Ping { payload })
            } else {
                None
            }
        } else {
            Some(Request::Ignored)
        }
    } else if state == 2 {
        match read_string_field(data, offset) {
            Some(username) => Some(Request::LoginStart { username }),
            None => None,
        }
    } else if state == 3 {
        if packet_id == 0x15 {
            match read_string_field(data, offset) {
                Some(locale) => Some(Request::ClientSettings { locale }),
                None => None,
            }
        } else if packet_id == 0x01 {
            match read_string_field(data, offset) {
                Some(message) => Some(Request::ChatMessage { message }),
                None => None,
            }
        } else {
            Some(Request::Ignored)
        }
    } else {
        Some(Request::UnknownState { state })
    }
}

/// Law: a chat message packet (id 1) that carries `message` is read, in
/// the play state, as that chat message, where the length of the message
/// reads back exactly.
pub proof fn lemma_parse_chat_message(message: Seq<char>)
    requires
        encode_utf8(message).len() <= i32::MAX,
        varint_exact(encode_utf8(message).len() as u32),
    ensures
        request_of(3, frame(0x01, string_bytes(message))) == Some(
            RequestView::ChatMessage { message },
        ),
{
    lemma_parse_string_packet(1, message);
}

/// Law: a login start packet that carries `username` is read, in the login
/// state, as the start of a login by that player, where the length of the
/// name reads back exactly.
pub proof fn lemma_parse_login_start(username: Seq<char>)
    requires
        encode_utf8(username).len() <= i32::MAX,
        varint_exact(encode_utf8(username).len() as u32),
    ensures
        request_of(2, frame(0x00, string_bytes(username))) == Some(
            RequestView::LoginStart { username },
        ),
{
    lemma_parse_string_packet(0, username);
}

/// Law: a ping (packet 1) that carries `payload` is read, in the status
/// state, as a ping with that payload.
pub proof fn lemma_parse_ping(payload: u64)
    ensures
        request_of(1, frame(0x01, be_bytes(payload, 8))) == Some(RequestView::Ping { payload }),
{
    let body = be_bytes(payload, 8);
    lemma_varint32_small(1);
    lemma_varint32_small(9);
    assert((1i32) as u32 == 1);
    let data = frame(1, body);
    assert(data == seq![9u8] + seq![1u8] + body);
    lemma_read_varint_back(Seq::empty(), 9, seq![1u8] + body);
    assert(Seq::<u8>::empty() + seq![9u8] + (seq![1u8] + body) == data);
    lemma_read_varint_back(seq![9u8], 1, body);
    assert(seq![9u8] + seq![1u8] + body == data);
    lemma_read_sized_back(seq![9u8, 1u8], payload, 8, Seq::empty());
    assert(seq![9u8, 1u8] + body + Seq::<u8>::empty() == data);
}

/// Law: a client settings packet (id 0x15) that carries `locale` is read,
/// in the play state, as the client's settings with that locale, where the
/// length of the locale reads back exactly.
pub proof fn lemma_parse_client_settings(locale: Seq<char>)
    requires
        encode_utf8(locale).len() <= i32::MAX,
        varint_exact(encode_utf8(locale).len() as u32),
    ensures
        request_of(3, frame(0x15, string_bytes(locale))) == Some(
            RequestView::ClientSettings { locale },
        ),
{
    lemma_parse_string_packet(0x15, locale);
}

/// Law: in the play state, a packet whose id is neither 0x01 (chat
/// message) nor 0x15 (client settings) is ignored, whatever its body.
pub proof fn lemma_parse_other_play_packet(id: i32, body: Seq<u8>)
    requires
        id != 0x01,
        id != 0x15,
        varint_exact(id as u32),
    ensures
        request_of(3, frame(id, body)) == Some(RequestView::Ignored),
{
    let ide = varint32_bytes(id as u32);
    let len = (ide.len() + body.len()) as u32;
    let le = varint32_bytes(len);
    let data = frame(id, body);
    assert(data == le + ide + body);
    lemma_read_varint_back(Seq::empty(), len, ide + body);
    assert(Seq::<u8>::empty() + le + (ide + body) == data);
    lemma_read_varint_back(le, id as u32, body);
    assert((id as u32) as i32 == id) by (bit_vector);
}

/// A packet with a small id and a string body: its length, id and string
/// read back.
proof fn lemma_parse_string_packet(id: u32, s: Seq<char>)
    requires
        id < 0x80,
        encode_utf8(s).len() <= i32::MAX,
        varint_exact(encode_utf8(s).len() as u32),
    ensures
        ({
            let data = frame(id as i32, string_bytes(s));
            let first = varint_read(data, 0).1;
            &&& varint_at(data, 0)
            &&& varint_at(data, first)
            &&& varint_read(data, first) == (id as i32, first + 1)
            &&& string_field(data, first + 1) == Some(s)
        }),
{
    let body = string_bytes(s);
    lemma_varint32_small(id);
    assert((id as i32) as u32 == id);
    let ide = varint32_bytes(id);
    let len = (ide.len() + body.len()) as u32;
    let le = varint32_bytes(len);
    let data = frame(id as i32, body);
    assert(data == le + ide + body);
    lemma_read_varint_back(Seq::empty(), len, ide + body);
    assert(Seq::<u8>::empty() + le + (ide + body) == data);
    lemma_read_varint_back(le, id, body);
    assert(le + ide + body == data);
    assert(id & 0x7F == id) by (bit_vector)
        requires id < 0x80;
    lemma_read_string_back(le + ide, s, Seq::empty());
    assert(le + ide + body + Seq::<u8>::empty() == data);
}

/// The description that the server list shows: the message of the day,
/// gold and bold.
pub fn status_description(motd: &str) -> (c: Chat)
    ensures
        c.model() == (ChatModel { bold: true, ..leaf(motd@, Some("gold"@)) }),
{
    let c = ChatBuilder::new(motd).color("gold").bold().finish();
    proof {
        lemma_style_constants();
        lemma_render_leaf(ChatBuilderModel { style: 0u8 | 1u8, ..plain(motd@) });
        lemma_render_leaf(ChatBuilderModel { color: Some("gold"@), style: 0u8 | 1u8, ..plain(motd@) });
    }
    c
}

/// The protocol number that the server list is told: the client's own
/// where the server knows it, else 0.
pub fn advertised_protocol(protocol: u16) -> (p: u16)
    ensures
        p == (if release_name(protocol) is Some {
            protocol
        } else {
            0
        }),
{
    match from_protocol(protocol) {
        None => 0,
        Some(_) => protocol,
    }
}

/// The status response (packet 0) with the status as JSON text.
pub fn status_response(process_id: String, status_json: String) -> (p: Packet)
    ensures
        p.pid@ == process_id@,
        p.state is None,
        p.data@ == frame(0x00, string_bytes(status_json@)),
{
    PacketBuilder::new(0x00, process_id).write_string(status_json).finish()
}

/// The pong (packet 1) that gives back a ping's payload.
pub fn pong(process_id: String, payload: u64) -> (p: Packet)
    ensures
        p.pid@ == process_id@,
        p.state is None,
        p.data@ == frame(0x01, be_bytes(payload, 8)),
{
    PacketBuilder::new(0x01, process_id).write_sized(payload, 8).finish()
}

/// The login success packet (packet 2): the player's UUID and name, with
/// the proxy state that now holds the name.
pub fn login_success(
    process_id: String,
    uuid: String,
    username: String,
    state: Option<ConnState>,
) -> (p: Packet)
    ensures
        p.pid@ == process_id@,
        p@.state == state_view(state),
        p.data@ == frame(0x02, string_bytes(uuid@) + string_bytes(username@)),
{
    let p = PacketBuilder::new(0x02, process_id).write_string(uuid).write_string(username).state(
        state,
    ).finish();
    assert(p.data@ == frame(0x02, string_bytes(uuid@) + string_bytes(username@)));
    p
}

/// The language part of a locale: what comes before its first underscore.
pub open spec fn locale_language(locale: Seq<char>) -> Seq<char>
    decreases locale.len(),
{
    if locale.len() == 0 || locale[0] == '_' {
        Seq::empty()
    } else {
        seq![locale[0]] + locale_language(locale.drop_first())
    }
}

/// The message for a client whose version the server does not know, in
/// French for a French locale and in English otherwise.
pub open spec fn unsupported_version_text(locale: Seq<char>) -> Seq<char> {
    if locale_language(locale) == "fr"@ {
        "Version non support\u{e9}e."@
    } else {
        "Unsupported version."@
    }
}

/// Whether the language of `locale` is French.
fn is_french(locale: &str) -> (b: bool)
    ensures
        b == (locale_language(locale@) == "fr"@),
{
    let n = locale.unicode_len();
    let b = n >= 2 && locale.get_char(0) == 'f' && locale.get_char(1) == 'r' && (n == 2
        || locale.get_char(2) == '_');
    proof {
        reveal_strlit("fr");
        assert("fr"@ =~= seq!['f', 'r']);
        let l = locale@;
        if l.len() == 0 || l[0] == '_' {
            assert(locale_language(l) == Seq::<char>::empty());
        } else {
            let l1 = l.drop_first();
            assert(locale_language(l) == seq![l[0]] + locale_language(l1));
            if l1.len() == 0 || l1[0] == '_' {
                assert(locale_language(l1) == Seq::<char>::empty());
                assert(locale_language(l) =~= seq![l[0]]);
            } else {
                let l2 = l1.drop_first();
                assert(l1[0] == l[1]);
                assert(locale_language(l1) == seq![l1[0]] + locale_language(l2));
                if l2.len() == 0 || l2[0] == '_' {
                    assert(locale_language(l2) == Seq::<char>::empty());
                    assert(locale_language(l) =~= seq![l[0], l[1]]);
                    assert(seq![l[0], l[1]] =~= seq!['f', 'r'] ==> l[0] == 'f' && l[1] == 'r');
                } else {
                    assert(l2[0] == l[2]);
                    assert(locale_language(l2) == seq![l2[0]] + locale_language(l2.drop_first()));
                    assert(locale_language(l).len() >= 3);
                }
            }
        }
    }
    b
}

/// The message for a client whose version the server does not know.
pub fn unsupported_version_message(locale: &str) -> (m: String)
    ensures
        m@ == unsupported_version_text(locale@),
{
    if is_french(locale) {
        String::from_str("Version non support\u{e9}e.")
    } else {
        String::from_str("Unsupported version.")
    }
}

/// The chat component that tells a client its version is not supported,
/// in red.
pub fn unsupported_version_chat(locale: &str) -> (c: Chat)
    ensures
        c.model() == leaf(unsupported_version_text(locale@), Some("red"@)),
{
    let message = unsupported_version_message(locale);
    let c = ChatBuilder::new(message.as_str()).color("red").finish();
    proof {
        lemma_style_constants();
        lemma_render_leaf(
            ChatBuilderModel { color: Some("red"@), ..plain(unsupported_version_text(locale@)) },
        );
    }
    c
}

/// The packet (id 0x40) that disconnects a client with the reason whose
/// chat JSON text is `reason_json`.
pub fn disconnect_packet(process_id: String, reason_json: String) -> (p: Packet)
    ensures
        p.pid@ == process_id@,
        p.state is None,
        p.data@ == frame(0x40, string_bytes(reason_json@)),
{
    PacketBuilder::new(0x40, process_id).write_string(reason_json).finish()
}

/// The line that announces a player who joined.
pub fn join_message(username: &str) -> (m: String)
    ensures
        m@ == username@ + " joined the game."@,
{
    String::from_str(username).concat(" joined the game.")
}

/// The chat component that announces a player who joined, in yellow.
pub fn join_chat(username: &str) -> (c: Chat)
    ensures
        c.model() == leaf(username@ + " joined the game."@, Some("yellow"@)),
{
    let message = join_message(username);
    let c = ChatBuilder::new(message.as_str()).color("yellow").finish();
    proof {
        lemma_style_constants();
        lemma_render_leaf(
            ChatBuilderModel { color: Some("yellow"@), ..plain(username@ + " joined the game."@) },
        );
    }
    c
}

/// The line that shows a player's chat message.
pub fn chat_line(username: &str, message: &str) -> (m: String)
    ensures
        m@ == username@ + ": "@ + message@,
{
    String::from_str(username).concat(": ").concat(message)
}

/// The chat component that shows a player's chat message, in gray.
pub fn chat_line_chat(username: &str, message: &str) -> (c: Chat)
    ensures
        c.model() == leaf(username@ + ": "@ + message@, Some("gray"@)),
{
    let line = chat_line(username, message);
    let c = ChatBuilder::new(line.as_str()).color("gray").finish();
    proof {
        lemma_style_constants();
        lemma_render_leaf(
            ChatBuilderModel { color: Some("gray"@), ..plain(username@ + ": "@ + message@) },
        );
    }
    c
}

/// The chat component that broadcasts a line typed at the server's
/// console: "Server:", a space, then the line in gray.
pub fn console_chat(line: &str) -> (c: Chat)
    ensures
        c.model() == (ChatModel {
            extra: seq![leaf(" "@, None), leaf(line@, Some("gray"@))],
            ..leaf("Server:"@, None)
        }),
{
    let c = ChatBuilder::new("Server:").space().append(ChatBuilder::new(line).color("gray")).finish();
    proof {
        lemma_style_constants();
        let head = plain("Server:"@);
        let space = plain(" "@);
        let gray = ChatBuilderModel { color: Some("gray"@), ..plain(line@) };
        lemma_finish_with_extra(with_extra(head, space), gray);
        lemma_finish_with_extra(head, space);
        lemma_render_leaf(head);
        lemma_render_leaf(space);
        lemma_render_leaf(gray);
        assert(render(head).extra.push(render(space)).push(render(gray)) =~= seq![
            leaf(" "@, None),
            leaf(line@, Some("gray"@)),
        ]);
    }
    c
}

/// The character of a decimal digit.
pub open spec fn digit_char(d: nat) -> char {
    if d == 0 {
        '0'
    } else if d == 1 {
        '1'
    } else if d == 2 {
        '2'
    } else if d == 3 {
        '3'
    } else if d == 4 {
        '4'
    } else if d == 5 {
        '5'
    } else if d == 6 {
        '6'
    } else if d == 7 {
        '7'
    } else if d == 8 {
        '8'
    } else {
        '9'
    }
}

/// `n` in decimal digits, most significant first.
pub open spec fn decimal(n: nat) -> Seq<char>
    decreases n,
{
    if n < 10 {
        seq![digit_char(n)]
    } else {
        decimal(n / 10).push(digit_char(n % 10))
    }
}

fn digit(d: u64) -> (c: char)
    requires
        d < 10,
    ensures
        c == digit_char(d as nat),
{
    match d {
        0 => '0',
        1 => '1',
        2 => '2',
        3 => '3',
        4 => '4',
        5 => '5',
        6 => '6',
        7 => '7',
        8 => '8',
        _ => '9',
    }
}

/// `n` written in decimal.
fn decimal_string(n: u64) -> (s: String)
    ensures
        s@ == decimal(n as nat),
    decreases n,
{
    if n < 10 {
        let mut s = String::new();
        s.push(digit(n));
        assert(s@ =~= seq![digit_char(n as nat)]);
        s
    } else {
        let mut s = decimal_string(n / 10);
        s.push(digit(n % 10));
        s
    }
}

/// What the server does in answer to a request.
pub enum ServerAction {
    /// Sends the server's status: the name of the releases it speaks, the
    /// protocol number it gives the client, the number of players it takes
    /// and its description.
    SendStatus { version_name: String, protocol: u16, max_players: u32, description: Chat },
    /// Sends a packet.
    Send(Packet),
    /// Disconnects the client with the reason given.
    Disconnect(Chat),
    /// Sends the client its position, which takes it past the screen that
    /// shows the terrain loading.
    SendPositionAndLook,
    /// Puts the client in the game.
    AddClient { version: Version, locale: String, username: String },
    /// Sends a chat component to every client in the game.
    Broadcast(Chat),
    /// Writes a line to the server's console.
    Log(String),
}

/// What a [`ServerAction`] holds.
pub enum ServerActionView {
    SendStatus { version_name: Seq<char>, protocol: u16, max_players: u32, description: ChatModel },
    Send(PacketView),
    Disconnect(ChatModel),
    SendPositionAndLook,
    AddClient { protocol: u16, release: Seq<char>, locale: Seq<char>, username: Seq<char> },
    Broadcast(ChatModel),
    Log(Seq<char>),
}

impl View for ServerAction {
    type V = ServerActionView;

    open spec fn view(&self) -> ServerActionView {
        match self {
            ServerAction::SendStatus { version_name, protocol, max_players, description } => {
                ServerActionView::SendStatus {
                    version_name: version_name@,
                    protocol: *protocol,
                    max_players: *max_players,
                    description: description.model(),
                }
            },
            ServerAction::Send(p) => ServerActionView::Send(p@),
            ServerAction::Disconnect(c) => ServerActionView::Disconnect(c.model()),
            ServerAction::SendPositionAndLook => ServerActionView::SendPositionAndLook,
            ServerAction::AddClient { version, locale, username } => ServerActionView::AddClient {
                protocol: version.protocol_view(),
                release: version.name_view(),
                locale: locale@,
                username: username@,
            },
            ServerAction::Broadcast(c) => ServerActionView::Broadcast(c.model()),
            ServerAction::Log(l) => ServerActionView::Log(l@),
        }
    }
}

/// The views of a list of actions, in order.
pub open spec fn actions_view(actions: Seq<ServerAction>) -> Seq<ServerActionView> {
    actions.map_values(|a: ServerAction| a@)
}

/// Whether `actions` are, one for one and in order, the actions `expected`.
pub open spec fn actions_are(actions: Seq<ServerAction>, expected: Seq<ServerActionView>) -> bool {
    &&& actions.len() == expected.len()
    &&& forall|i: int| 0 <= i < actions.len() ==> #[trigger] actions[i]@ == expected[i]
}

proof fn lemma_actions_are(actions: Seq<ServerAction>, expected: Seq<ServerActionView>)
    requires
        actions_view(actions) == expected,
    ensures
        actions_are(actions, expected),
{
    assert forall|i: int| 0 <= i < actions.len() implies #[trigger] actions[i]@ == expected[i] by {
        assert(actions_view(actions)[i] == actions[i]@);
    }
}

/// The inputs on which the server answers a request: the status and the
/// client settings need the client's protocol number, a client of a known
/// version needs its player's name, and a chat message needs the name of
/// the player who sent it.
pub open spec fn respond_defined(
    conn: ConnStateView,
    request: RequestView,
    sender: Option<Seq<char>>,
) -> bool {
    match request {
        RequestView::Status => conn.protocol is Some,
        RequestView::ClientSettings { .. } => conn.protocol is Some && (release_name(
            conn.protocol->0 as u16,
        ) is Some ==> conn.username is Some),
        RequestView::ChatMessage { .. } => sender is Some,
        _ => true,
    }
}

/// The state of the connection once the server has answered: a login puts
/// the player's name in it and switches it to the play state; nothing else
/// changes it.
pub open spec fn respond_state(conn: ConnStateView, request: RequestView) -> ConnStateView {
    match request {
        RequestView::LoginStart { username } => play_state(
            ConnStateView { username: Some(username), ..conn },
        ),
        _ => conn,
    }
}

/// What the server does, in order, in answer to `request` from connection
/// `pid` in state `conn`, with `max_players` and `motd` from its
/// configuration, `uuid` for a player who logs in, and `sender` the name
/// of the player of connection `pid` in the game, if any.
///
/// - status: its status, for releases "1.8-1.19", with the client's
///   protocol where the server knows it (else 0), and its description;
/// - ping: the pong with the same payload;
/// - login: the login success packet with the state that now holds the
///   player's name, then the join game packet with that state in play;
/// - client settings: for an unknown version, a disconnect in the
///   client's language; else its position, then the client in the game,
///   then the line that it joined, to the console and to every client;
/// - chat message: the line "name: message" to the console, then to every
///   client in gray;
/// - a packet in an unknown state: the line that says so.
pub open spec fn respond_actions(
    pid: Seq<char>,
    conn: ConnStateView,
    request: RequestView,
    max_players: u32,
    motd: Seq<char>,
    uuid: Seq<char>,
    sender: Option<Seq<char>>,
) -> Seq<ServerActionView> {
    match request {
        RequestView::Status => seq![
            ServerActionView::SendStatus {
                version_name: "1.8-1.19"@,
                protocol: if release_name(conn.protocol->0 as u16) is Some {
                    conn.protocol->0 as u16
                } else {
                    0
                },
                max_players,
                description: ChatModel { bold: true, ..leaf(motd, Some("gold"@)) },
            },
        ],
        RequestView::Ping { payload } => seq![
            ServerActionView::Send(
                PacketView { pid, state: None, data: frame(0x01, be_bytes(payload, 8)) },
            ),
        ],
        RequestView::LoginStart { username } => {
            let state = ConnStateView { username: Some(username), ..conn };
            seq![
                ServerActionView::Send(
                    PacketView {
                        pid,
                        state: Some(state),
                        data: frame(0x02, string_bytes(uuid) + string_bytes(username)),
                    },
                ),
                ServerActionView::Send(
                    PacketView {
                        pid,
                        state: Some(play_state(state)),
                        data: frame(1, join_game_body(default_join_game())),
                    },
                ),
            ]
        },
        RequestView::ClientSettings { locale } => {
            let protocol = conn.protocol->0 as u16;
            match release_name(protocol) {
                None => seq![
                    ServerActionView::Disconnect(
                        leaf(unsupported_version_text(locale), Some("red"@)),
                    ),
                ],
                Some(release) => {
                    let username = conn.username->0;
                    seq![
                        ServerActionView::SendPositionAndLook,
                        ServerActionView::AddClient { protocol, release, locale, username },
                        ServerActionView::Log(username + " joined the game."@),
                        ServerActionView::Broadcast(
                            leaf(username + " joined the game."@, Some("yellow"@)),
                        ),
                    ]
                },
            }
        },
        RequestView::ChatMessage { message } => {
            let line = sender->0 + ": "@ + message;
            seq![
                ServerActionView::Log(line),
                ServerActionView::Broadcast(leaf(line, Some("gray"@))),
            ]
        },
        RequestView::Ignored => seq![],
        RequestView::UnknownState { state } => seq![
            ServerActionView::Log("Unknown state: "@ + decimal(state as nat)),
        ],
    }
}

/// Law: the server answers a status request with its status alone, and
/// the protocol that it advertises there is the client's own exactly when
/// the server knows that protocol, and 0 otherwise.
pub proof fn lemma_status_advertises(
    pid: Seq<char>,
    conn: ConnStateView,
    max_players: u32,
    motd: Seq<char>,
    uuid: Seq<char>,
    sender: Option<Seq<char>>,
)
    requires
        conn.protocol is Some,
    ensures
        ({
            let actions = respond_actions(
                pid,
                conn,
                RequestView::Status,
                max_players,
                motd,
                uuid,
                sender,
            );
            let client = conn.protocol->0 as u16;
            &&& actions.len() == 1
            &&& actions[0] is SendStatus
            &&& (actions[0]->SendStatus_protocol == client <==> release_name(client) is Some
                || client == 0)
            &&& (release_name(client) is None ==> actions[0]->SendStatus_protocol == 0)
            &&& actions[0]->SendStatus_max_players == max_players
        }),
{
}

/// What the server does in answer to `request` from connection `pid` in
/// state `conn` (see [`respond_actions`]), and the state of the connection
/// after it.
pub fn respond(
    pid: String,
    conn: ConnState,
    request: Request,
    max_players: u32,
    motd: &str,
    uuid: String,
    sender: Option<String>,
) -> (r: (ConnState, Vec<ServerAction>))
    requires
        respond_defined(conn@, request@, opt_chars(sender)),
    ensures
        r.0@ == respond_state(conn@, request@),
        actions_are(
            r.1@,
            respond_actions(pid@, conn@, request@, max_players, motd@, uuid@, opt_chars(sender)),
        ),
{
    let ghost pid_v = pid@;
    let ghost conn_v = conn@;
    let ghost request_v = request@;
    let ghost sender_v = opt_chars(sender);
    let ghost uuid_v = uuid@;
    let mut actions: Vec<ServerAction> = Vec::new();
    let next = match request {
        Request::Status => {
            let protocol = match conn.protocol {
                Some(p) => p as u16,
                None => 0,
            };
            actions.push(
                ServerAction::SendStatus {
                    version_name: String::from_str("1.8-1.19"),
                    protocol: advertised_protocol(protocol),
                    max_players,
                    description: status_description(motd),
                },
            );
            conn
        },
        Request::Ping { payload } => {
            actions.push(ServerAction::Send(pong(pid, payload)));
            conn
        },
        Request::LoginStart { username } => {
            let state = conn.with_username(username.clone());
            let login = login_success(pid.clone(), uuid, username, Some(state.with_state(state.state)));
            let join_game = JoinGamePacketBuilder::new().finish(pid, &state);
            actions.push(ServerAction::Send(login));
            actions.push(ServerAction::Send(join_game));
            state.with_state(3)
        },
        Request::ClientSettings { locale } => {
            let protocol = match conn.protocol {
                Some(p) => p as u16,
                None => 0,
            };
            match from_protocol(protocol) {
                None => {
                    actions.push(ServerAction::Disconnect(unsupported_version_chat(locale.as_str())));
                },
                Some(version) => {
                    let username = match &conn.username {
                        Some(u) => u.clone(),
                        None => String::new(),
                    };
                    let line = join_message(username.as_str());
                    let chat = join_chat(username.as_str());
                    actions.push(ServerAction::SendPositionAndLook);
                    actions.push(ServerAction::AddClient { version, locale, username });
                    actions.push(ServerAction::Log(line));
                    actions.push(ServerAction::Broadcast(chat));
                },
            }
            conn
        },
        Request::ChatMessage { message } => {
            let username = match &sender {
                Some(u) => u.clone(),
                None => String::new(),
            };
            let chat = chat_line_chat(username.as_str(), message.as_str());
            actions.push(ServerAction::Log(chat_line(username.as_str(), message.as_str())));
            actions.push(ServerAction::Broadcast(chat));
            conn
        },
        Request::Ignored => conn,
        Request::UnknownState { state } => {
            let line = String::from_str("Unknown state: ").concat(decimal_string(state).as_str());
            actions.push(ServerAction::Log(line));
            conn
        },
    };
    proof {
        reveal_strlit("1.8-1.19");
        let expected = respond_actions(
            pid_v,
            conn_v,
            request_v,
            max_players,
            motd@,
            uuid_v,
            sender_v,
        );
        assert(actions_view(actions@) =~= expected);
        lemma_actions_are(actions@, expected);
    }
    (next, actions)
}
} // verus!
