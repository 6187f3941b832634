//! What a guest asks the center, and what it makes of the answers.
use vstd::prelude::*;
use vstd::utf8::encode_utf8;

use crate::center::client_conn;
use crate::center::roster;
use crate::center::scaffolding_center;
use crate::error;
use crate::error::{ErrorView, ScaffoldingError};
use crate::json;
use crate::json::{Json, JsonValue};
use crate::models::player;
use crate::models::player::{EntryView, PlayerInfo, PlayerKind, PlayerProfileEntry, PlayerView};
use crate::models::protocol::{ProtocolRequest, ProtocolResponse, RequestView, ResponseView};
use crate::protocols;
use crate::session::protocol_negotiator;
use crate::session::protocol_serializer;
use crate::text;

verus! {

// ---------------------------------------------------------------------------------------
// Requests
// ---------------------------------------------------------------------------------------
/// A request to the center of the standard namespace.
pub open spec fn standard_request(request_type: Seq<char>, body: Seq<u8>) -> RequestView {
    RequestView { namespace: "c"@, request_type, body }
}

/// The request that asks whether the center is there.
pub open spec fn ping_asked() -> RequestView {
    standard_request("ping"@, seq![0x42u8])
}

/// The request that asks for the port of the game server.
pub open spec fn port_asked() -> RequestView {
    standard_request("server_port"@, Seq::empty())
}

/// The request that asks for the players of the room.
pub open spec fn players_asked() -> RequestView {
    standard_request("player_profiles_list"@, Seq::empty())
}

/// The request that tells the keys that the guest knows and asks for those of the center.
pub open spec fn keys_asked(keys: Seq<Seq<char>>) -> RequestView {
    standard_request("protocols"@, encode_utf8(text::join(keys, '\0')))
}

fn new_request(request_type: &str, body: Vec<u8>) -> (request: ProtocolRequest)
    ensures
        request@ == standard_request(request_type@, body@),
{
    ProtocolRequest { namespace: "c".to_owned(), request_type: request_type.to_owned(), body }
}

/// Asks whether the center is there.
pub fn ping_request() -> (request: ProtocolRequest)
    ensures
        request@ == ping_asked(),
{
    let mut body: Vec<u8> = Vec::new();
    body.push(0x42);
    assert(body@ =~= seq![0x42u8]);
    new_request("ping", body)
}

/// Asks for the port of the game server.
pub fn server_port_request() -> (request: ProtocolRequest)
    ensures
        request@ == port_asked(),
{
    let body: Vec<u8> = Vec::new();
    assert(body@ =~= Seq::empty());
    new_request("server_port", body)
}

/// Asks for the players of the room.
pub fn player_list_request() -> (request: ProtocolRequest)
    ensures
        request@ == players_asked(),
{
    let body: Vec<u8> = Vec::new();
    assert(body@ =~= Seq::empty());
    new_request("player_profiles_list", body)
}

/// Tells the keys that the guest knows, and asks for those of the center.
pub fn protocols_request(keys: &Vec<String>) -> (request: ProtocolRequest)
    ensures
        request@ == keys_asked(text::texts(keys@)),
{
    let list = text::join_texts(keys, '\0');
    new_request("protocols", text::utf8_bytes(list.as_str()))
}

/// The keys that a guest knows: the standard ones and its own.
pub open spec fn known_keys(custom: Seq<Seq<char>>) -> Seq<Seq<char>> {
    scaffolding_center::standard_keys() + custom
}

/// The keys that a guest knows: the standard ones and its own.
pub fn known_key_list(custom: &Vec<String>) -> (keys: Vec<String>)
    ensures
        text::texts(keys@) == known_keys(text::texts(custom@)),
{
    let mut keys = scaffolding_center::standard_key_list();
    let ghost standard = text::texts(keys@);
    let mut own = text::copy_texts(custom.as_slice());
    keys.append(&mut own);
    assert(text::texts(keys@) =~= standard + text::texts(custom@));
    keys
}

/// How a guest describes itself: its node's identifier only where the center knows what to do
/// with it.
pub open spec fn guest_entry(
    name: Seq<char>,
    machine_id: Seq<char>,
    vendor: Seq<char>,
    negotiated: Seq<Seq<char>>,
    node_id: Option<Seq<char>>,
) -> EntryView {
    EntryView {
        name,
        machine_id,
        vendor,
        easytier_id: if negotiated.contains("c:player_easytier_id"@) {
            match node_id {
                Some(id) => Some(id),
                None => Some(Seq::empty()),
            }
        } else {
            None
        },
        kind: None,
    }
}

/// The members of a regular heartbeat, in their order.
pub open spec fn heartbeat_members(entry: EntryView) -> Seq<(Seq<char>, Option<Seq<char>>)> {
    seq![
        ("easytier_id"@, entry.easytier_id),
        ("kind"@, entry.kind),
        ("machine_id"@, Some(entry.machine_id)),
        ("name"@, Some(entry.name)),
        ("vendor"@, Some(entry.vendor)),
    ]
}

/// How a guest describes itself.
pub fn describe_guest(
    name: &str,
    machine_id: &str,
    vendor: &str,
    negotiated: &Vec<String>,
    node_id: Option<String>,
) -> (entry: PlayerProfileEntry)
    ensures
        entry@ == guest_entry(
            name@,
            machine_id@,
            vendor@,
            text::texts(negotiated@),
            text::optional_text(node_id),
        ),
{
    let easytier_id = if text::list_contains(negotiated.as_slice(), "c:player_easytier_id") {
        match node_id {
            Some(id) => Some(id),
            None => Some(String::new()),
        }
    } else {
        None
    };
    PlayerProfileEntry {
        name: name.to_owned(),
        machine_id: machine_id.to_owned(),
        easytier_id,
        vendor: vendor.to_owned(),
        kind: None,
    }
}

/// Introduces a guest to the center. Reading the body gives the guest's description back.
pub fn player_ping_request(entry: PlayerProfileEntry) -> (request: ProtocolRequest)
    ensures
        request@ == standard_request(
            "player_ping"@,
            json::object_written(protocols::entry_members(entry@)),
        ),
        json::json_parsed(request@.body) == json::parsed_as(
            json::object_of(protocols::entry_members(entry@)),
        ),
{
    let members = protocols::entry_to_members(entry);
    new_request("player_ping", json::write_object(&members))
}

/// Tells the center that a guest is still there. Reading the body gives the guest's
/// description back.
pub fn heartbeat_request(entry: PlayerProfileEntry) -> (request: ProtocolRequest)
    ensures
        request@ == standard_request(
            "player_ping"@,
            json::object_written(heartbeat_members(entry@)),
        ),
        json::json_parsed(request@.body) == json::parsed_as(
            json::object_of(heartbeat_members(entry@)),
        ),
{
    let mut members: Vec<(String, Option<String>)> = Vec::new();
    members.push(("easytier_id".to_owned(), entry.easytier_id));
    members.push(("kind".to_owned(), entry.kind));
    members.push(("machine_id".to_owned(), Some(entry.machine_id)));
    members.push(("name".to_owned(), Some(entry.name)));
    members.push(("vendor".to_owned(), Some(entry.vendor)));
    assert(json::members_of(members@) =~= heartbeat_members(entry@));
    proof {
        heartbeat_names_are_distinct(entry@);
    }
    new_request("player_ping", json::write_object(&members))
}

// ---------------------------------------------------------------------------------------
// Answers
// ---------------------------------------------------------------------------------------
/// The keys in the center's answer.
pub open spec fn keys_in(body: Seq<u8>) -> Seq<Seq<char>> {
    text::split(text::lossy_text(body), '\0')
}

/// The keys in the center's answer: one more than it holds zero bytes.
pub fn center_keys(body: &[u8]) -> (keys: Vec<String>)
    ensures
        text::texts(keys@) == keys_in(body@),
        keys@.len() == text::byte_times(body@, 0u8) + 1,
{
    let list = text::lossy_string(body);
    proof {
        text::ascii_is_kept(list@, body@, 0u8);
        assert(0u8 as char == '\0');
        text::pieces_are_counted(list@, '\0');
        assert(keys_in(body@).len() == text::byte_times(body@, 0u8) + 1);
    }
    text::split_text(list.as_str(), '\0')
}

/// The port in the center's answer: a status from 32 to 63 says that the game server does not
/// run, any other status but zero that the port could not be told.
pub open spec fn server_port_in(response: ResponseView) -> Result<u16, ErrorView> {
    let status = text::decimal(response.status as nat);
    if 32 <= response.status < 64 {
        Err(ErrorView::Protocol("MC 服务器未启动 (状态码: "@ + status + ")"@))
    } else if response.status != 0 {
        Err(ErrorView::Protocol("获取服务器端口失败 (状态码: "@ + status + ")"@))
    } else if response.body.len() == 2 {
        Ok((response.body[0] * 256 + response.body[1]) as u16)
    } else {
        Err(
            ErrorView::Protocol(
                "服务器端口响应长度非法: "@ + text::decimal(response.body.len()) + " 字节"@,
            ),
        )
    }
}

fn status_error(head: &str, status: u8) -> (error: ScaffoldingError)
    ensures
        error@ == ErrorView::Protocol(head@ + text::decimal(status as nat) + ")"@),
{
    let mut message = text::concat(head, text::decimal_text(status as u64).as_str());
    message.append(")");
    ScaffoldingError::Protocol(message)
}

/// The port of the game server in the center's answer.
pub fn server_port_from(response: &ProtocolResponse) -> (port: Result<u16, ScaffoldingError>)
    ensures
        match port {
            Ok(p) => server_port_in(response@) == Ok::<u16, ErrorView>(p),
            Err(error) => server_port_in(response@) == Err::<u16, ErrorView>(error@),
        },
{
    let status: u8 = response.status;
    if 32 <= status && status < 64 {
        return Err(status_error("MC 服务器未启动 (状态码: ", status));
    }
    if !response.is_success() {
        return Err(status_error("获取服务器端口失败 (状态码: ", status));
    }
    if response.body.len() == 2 {
        Ok(response.body[0] as u16 * 256 + response.body[1] as u16)
    } else {
        let mut message = text::concat(
            "服务器端口响应长度非法: ",
            text::decimal_text(response.body.len() as u64).as_str(),
        );
        message.append(" 字节");
        Err(ScaffoldingError::Protocol(message))
    }
}

/// A member of an object that is a text.
pub open spec fn text_member(item: Json, name: Seq<char>) -> Option<Seq<char>> {
    match item.get(name) {
        Some(value) => value.as_text(),
        None => None,
    }
}

/// A member of an object that is a text, or the empty text.
pub open spec fn text_member_or_empty(item: Json, name: Seq<char>) -> Seq<char> {
    match text_member(item, name) {
        Some(s) => s,
        None => Seq::empty(),
    }
}

/// The player that an item of the center's list describes.
pub open spec fn listed_player(item: Json) -> PlayerView {
    PlayerView {
        name: text_member_or_empty(item, "name"@),
        machine_id: text_member_or_empty(item, "machine_id"@),
        easytier_id: text_member(item, "easytier_id"@),
        vendor: text_member_or_empty(item, "vendor"@),
        kind: if text_member(item, "kind"@) == Some("HOST"@) {
            PlayerKind::Host
        } else {
            PlayerKind::Guest
        },
    }
}

/// The players that the items of the center's list describe; items that are no objects are
/// left out.
pub open spec fn listed_players(items: Seq<Json>) -> Seq<PlayerView>
    decreases items.len(),
{
    if items.len() == 0 {
        Seq::empty()
    } else {
        let before = listed_players(items.drop_last());
        if items.last() is Object {
            before.push(listed_player(items.last()))
        } else {
            before
        }
    }
}

/// The players in the center's list; what is no array lists none.
pub open spec fn players_in(root: Json) -> Seq<PlayerView> {
    match root.as_array() {
        Some(items) => listed_players(items),
        None => Seq::empty(),
    }
}

fn member_as_text(item: &JsonValue, name: &str) -> (string: Option<String>)
    ensures
        text::optional_text(string) == text_member(item@, name@),
{
    match item.get(name) {
        Some(value) => match value.as_text() {
            Some(s) => Some(s.to_owned()),
            None => None,
        },
        None => None,
    }
}

fn member_or_empty(item: &JsonValue, name: &str) -> (string: String)
    ensures
        string@ == text_member_or_empty(item@, name@),
{
    match member_as_text(item, name) {
        Some(s) => s,
        None => String::new(),
    }
}

fn player_from_item(item: &JsonValue) -> (player: PlayerInfo)
    ensures
        player@ == listed_player(item@),
{
    let is_host = match member_as_text(item, "kind") {
        Some(kind) => text::same_text(kind.as_str(), "HOST"),
        None => false,
    };
    PlayerInfo {
        name: member_or_empty(item, "name"),
        machine_id: member_or_empty(item, "machine_id"),
        vendor: member_or_empty(item, "vendor"),
        easytier_id: member_as_text(item, "easytier_id"),
        kind: if is_host {
            PlayerKind::Host
        } else {
            PlayerKind::Guest
        },
    }
}

/// The players in the center's list.
pub fn players_from_json(root: &JsonValue) -> (players: Vec<PlayerInfo>)
    ensures
        player::player_views(players@) == players_in(root@),
{
    let mut players: Vec<PlayerInfo> = Vec::new();
    match root {
        JsonValue::Array(items) => {
            let ghost all = root@->Array_0;
            assert(player::player_views(players@) =~= listed_players(all.take(0)));
            for i in 0..items.len()
                invariant
                    all == root@->Array_0,
                    *root == JsonValue::Array(*items),
                    player::player_views(players@) == listed_players(all.take(i as int)),
            {
                assert(all.take(i + 1).drop_last() =~= all.take(i as int));
                assert(all.take(i + 1).last() == items@[i as int]@);
                let ghost before = player::player_views(players@);
                if let JsonValue::Object(_) = &items[i] {
                    let player = player_from_item(&items[i]);
                    let ghost added = player@;
                    players.push(player);
                    assert(player::player_views(players@) =~= before.push(added));
                }
            }
            assert(all.take(all.len() as int) =~= all);
        },
        _ => {
            assert(player::player_views(players@) =~= Seq::empty());
        },
    }
    players
}

/// The players in the center's answer, whatever its status; the error is the message of the
/// JSON parser.
pub open spec fn players_told(response: ResponseView) -> Result<Seq<PlayerView>, ErrorView> {
    match json::json_parsed(response.body) {
        Ok(root) => Ok(players_in(root)),
        Err(message) => Err(ErrorView::Protocol(message)),
    }
}

/// The players in the center's answer, whatever its status; the error is the message of the
/// JSON parser.
pub fn players_from(response: &ProtocolResponse) -> (players: Result<
    Vec<PlayerInfo>,
    ScaffoldingError,
>)
    ensures
        match players {
            Ok(list) => players_told(response@) == Ok::<Seq<PlayerView>, ErrorView>(
                player::player_views(list@),
            ),
            Err(error) => players_told(response@) == Err::<Seq<PlayerView>, ErrorView>(error@),
        },
{
    match json::parse_json(response.body.as_slice()) {
        Ok(root) => Ok(players_from_json(&root)),
        Err(message) => Err(ScaffoldingError::Protocol(message)),
    }
}

// ---------------------------------------------------------------------------------------
// Protocols of the application's own
// ---------------------------------------------------------------------------------------
/// The request for a protocol of the application's own; its key has to hold a colon.
pub open spec fn custom_asked(key: Seq<char>, body: Seq<u8>) -> Result<RequestView, ErrorView> {
    let colon = text::first_from(key, ':', 0);
    if colon < key.len() {
        Ok(
            RequestView {
                namespace: key.take(colon),
                request_type: key.skip(colon + 1),
                body,
            },
        )
    } else {
        Err(ErrorView::Protocol("无效的协议键格式: "@ + key))
    }
}

/// The body of the answer of a protocol of the application's own, where it reports success.
pub open spec fn custom_told(key: Seq<char>, response: ResponseView) -> Result<Seq<u8>, ErrorView> {
    if response.status == 0 {
        Ok(response.body)
    } else {
        Err(
            ErrorView::Protocol(
                "协议 "@ + key + " 返回错误状态: "@ + text::decimal(response.status as nat),
            ),
        )
    }
}

/// The request for a protocol of the application's own; its key has to hold a colon.
pub fn custom_request(key: &str, body: Vec<u8>) -> (request: Result<
    ProtocolRequest,
    ScaffoldingError,
>)
    ensures
        error::outcome(request) == custom_asked(key@, body@),
        request matches Ok(r) ==> r@.key() == key@,
{
    let chars = text::chars_of(key);
    let colon: usize = text::find_from(&chars, ':', 0);
    if colon < chars.len() {
        let namespace = text::string_between(&chars, 0, colon);
        let request_type = text::string_between(&chars, colon + 1, chars.len());
        assert(namespace@ =~= key@.take(colon as int));
        assert(request_type@ =~= key@.skip(colon + 1));
        assert(namespace@.push(':') + request_type@ =~= key@);
        Ok(ProtocolRequest { namespace, request_type, body })
    } else {
        Err(ScaffoldingError::Protocol(text::concat("无效的协议键格式: ", key)))
    }
}

/// The body of the answer of a protocol of the application's own, where it reports success.
pub fn custom_answer(key: &str, response: ProtocolResponse) -> (body: Result<
    Vec<u8>,
    ScaffoldingError,
>)
    ensures
        match body {
            Ok(bytes) => custom_told(key@, response@) == Ok::<Seq<u8>, ErrorView>(bytes@),
            Err(error) => custom_told(key@, response@) == Err::<Seq<u8>, ErrorView>(error@),
        },
{
    if response.is_success() {
        Ok(response.body)
    } else {
        let mut message = text::concat("协议 ", key);
        message.append(" 返回错误状态: ");
        message.append(text::decimal_text(response.status as u64).as_str());
        Err(ScaffoldingError::Protocol(message))
    }
}

// ---------------------------------------------------------------------------------------
// Laws
// ---------------------------------------------------------------------------------------
/// The names of a heartbeat's members differ.
pub proof fn heartbeat_names_are_distinct(entry: EntryView)
    ensures
        json::distinct_names(heartbeat_members(entry)),
{
    reveal_strlit("name");
    reveal_strlit("machine_id");
    reveal_strlit("easytier_id");
    reveal_strlit("vendor");
    reveal_strlit("kind");
    let members = heartbeat_members(entry);
    assert(members[1].0[0] == 'k' && members[3].0[0] == 'n');
    assert(members[1].0.len() == 4 && members[3].0.len() == 4);
    assert(members[0].0.len() == 11 && members[2].0.len() == 10 && members[4].0.len() == 6);
}

/// An object yields each of its members under the member's name, where the names differ.
pub proof fn members_are_found(members: Seq<(Seq<char>, Option<Seq<char>>)>, i: int)
    requires
        json::distinct_names(members),
        0 <= i < members.len(),
    ensures
        json::object_of(members).get(members[i].0) == Some(
            match members[i].1 {
                Some(s) => Json::Text(s),
                None => Json::Null,
            },
        ),
    decreases members.len(),
{
    let fields = json::object_of(members)->Object_0;
    if i > 0 {
        assert(members[0].0 != members[i].0);
        let rest = members.skip(1);
        assert forall|a: int, b: int| 0 <= a < b < rest.len() implies (#[trigger] rest[a]).0 != (
        #[trigger] rest[b]).0 by {
            assert(members[a + 1].0 != members[b + 1].0);
        }
        members_are_found(rest, i - 1);
        assert(fields.skip(1) =~= json::object_of(rest)->Object_0);
    }
}

/// An optional text as a JSON value.
pub open spec fn text_or_null(s: Option<Seq<char>>) -> Json {
    match s {
        Some(chars) => Json::Text(chars),
        None => Json::Null,
    }
}

/// Whether a JSON object describes a player: each of its members says what its name promises.
pub open spec fn describes(root: Json, entry: EntryView) -> bool {
    &&& root.get("name"@) == Some(Json::Text(entry.name))
    &&& root.get("machine_id"@) == Some(Json::Text(entry.machine_id))
    &&& root.get("vendor"@) == Some(Json::Text(entry.vendor))
    &&& root.get("easytier_id"@) == Some(text_or_null(entry.easytier_id))
    &&& root.get("kind"@) == Some(text_or_null(entry.kind))
}

/// Introductions, heartbeats and the rows of the list of players describe the player that they
/// are made for.
pub proof fn messages_describe_the_player(entry: EntryView)
    ensures
        describes(json::object_of(protocols::entry_members(entry)), entry),
        describes(json::object_of(heartbeat_members(entry)), entry),
{
    let members = protocols::entry_members(entry);
    protocols::entry_names_are_distinct(entry);
    members_are_found(members, 0);
    members_are_found(members, 1);
    members_are_found(members, 2);
    members_are_found(members, 3);
    members_are_found(members, 4);
    let beats = heartbeat_members(entry);
    heartbeat_names_are_distinct(entry);
    members_are_found(beats, 0);
    members_are_found(beats, 1);
    members_are_found(beats, 2);
    members_are_found(beats, 3);
    members_are_found(beats, 4);
}

/// The list that the center sends has one row for each player, in their order, and each row
/// describes its player, with `HOST` or `GUEST` as its role.
pub proof fn list_describes_the_players(players: Seq<PlayerView>, i: int)
    requires
        0 <= i < players.len(),
    ensures
        json::list_of(protocols::profile_rows(players)) is Array,
        ({
            let rows = json::list_of(protocols::profile_rows(players))->Array_0;
            &&& rows.len() == players.len()
            &&& describes(
                rows[i],
                EntryView {
                    name: players[i].name,
                    machine_id: players[i].machine_id,
                    easytier_id: players[i].easytier_id,
                    vendor: players[i].vendor,
                    kind: if players[i].kind is Host {
                        Some("HOST"@)
                    } else {
                        Some("GUEST"@)
                    },
                },
            )
        }),
{
    messages_describe_the_player(protocols::entry_of(players[i]));
}

/// A player that a guest reads from the center's list is the one that the row describes; what is
/// no text counts as missing, and only `HOST` makes a host.
pub proof fn row_is_read_as_it_says(item: Json)
    ensures
        ({
            let player = listed_player(item);
            &&& item.get("name"@) matches Some(Json::Text(s)) ==> player.name == s
            &&& item.get("machine_id"@) matches Some(Json::Text(s)) ==> player.machine_id == s
            &&& item.get("vendor"@) matches Some(Json::Text(s)) ==> player.vendor == s
            &&& item.get("easytier_id"@) matches Some(Json::Text(s)) ==> player.easytier_id == Some(s)
            &&& !(item.get("name"@) matches Some(Json::Text(_))) ==> player.name.len() == 0
            &&& !(item.get("machine_id"@) matches Some(Json::Text(_))) ==> player.machine_id.len() == 0
            &&& !(item.get("vendor"@) matches Some(Json::Text(_))) ==> player.vendor.len() == 0
            &&& !(item.get("easytier_id"@) matches Some(Json::Text(_))) ==> player.easytier_id is None
            &&& player.kind is Host <==> item.get("kind"@) == Some(Json::Text("HOST"@))
        }),
{
}

/// Two lists that the center sends one behind the other are read as one: every row that is an
/// object is read, in its order, and nothing else is.
pub proof fn every_row_is_read(a: Seq<Json>, b: Seq<Json>)
    ensures
        listed_players(a + b) == listed_players(a) + listed_players(b),
        b.len() == 1 ==> listed_players(b) == (if b[0] is Object {
            seq![listed_player(b[0])]
        } else {
            Seq::<PlayerView>::empty()
        }),
    decreases b.len(),
{
    if b.len() == 0 {
        assert(a + b =~= a);
        assert(listed_players(a) + listed_players(b) =~= listed_players(a));
    } else {
        every_row_is_read(a, b.drop_last());
        assert((a + b).drop_last() =~= a + b.drop_last());
        assert(listed_players(a + b) =~= listed_players(a) + listed_players(b));
        if b.len() == 1 {
            assert(listed_players(b.drop_last()) =~= Seq::<PlayerView>::empty());
            assert(listed_players(b) =~= (if b[0] is Object {
                seq![listed_player(b[0])]
            } else {
                Seq::<PlayerView>::empty()
            }));
        }
    }
}

/// The center lists its players, and a guest reads the same players from the list.
pub proof fn players_are_read_back(players: Seq<PlayerView>)
    ensures
        players_in(json::list_of(protocols::profile_rows(players))) == players,
    decreases players.len(),
{
    let items = json::list_of(protocols::profile_rows(players))->Array_0;
    if players.len() == 0 {
        assert(listed_players(items) =~= players);
    } else {
        let before = players.drop_last();
        players_are_read_back(before);
        assert(items.drop_last() =~= json::list_of(protocols::profile_rows(before))->Array_0);
        let player = players.last();
        let members = protocols::entry_members(protocols::entry_of(player));
        assert(items.last() == json::object_of(members));
        protocols::entry_names_are_distinct(protocols::entry_of(player));
        members_are_found(members, 0);
        members_are_found(members, 1);
        members_are_found(members, 2);
        members_are_found(members, 3);
        members_are_found(members, 4);
        assert("HOST"@ != "GUEST"@) by {
            reveal_strlit("HOST");
            reveal_strlit("GUEST");
            assert("HOST"@.len() == 4 && "GUEST"@.len() == 5);
        }
        assert(listed_player(items.last()) =~= player);
        assert(before.push(player) =~= players);
    }
}

/// A guest introduces itself, and the center reads the same guest from the introduction.
pub proof fn introduction_is_read_back(entry: EntryView)
    ensures
        ({
            let root = json::object_of(protocols::entry_members(entry));
            &&& protocols::pinging_player(root) == (PlayerView {
                name: entry.name,
                machine_id: entry.machine_id,
                easytier_id: entry.easytier_id,
                vendor: entry.vendor,
                kind: PlayerKind::Host,
            })
            &&& client_conn::machine_named(root) == Some(entry.machine_id)
        }),
{
    let members = protocols::entry_members(entry);
    protocols::entry_names_are_distinct(entry);
    members_are_found(members, 0);
    members_are_found(members, 1);
    members_are_found(members, 2);
    members_are_found(members, 3);
}

/// A guest that introduces itself to a center that does not know it is listed as a guest, and
/// every guest that asks for the players reads it from the list.
pub proof fn introduced_guest_is_listed(players: Seq<PlayerView>, entry: EntryView)
    requires
        !roster::has_machine(players, entry.machine_id),
    ensures
        ({
            let root = json::object_of(protocols::entry_members(entry));
            let after = roster::after_ping(players, protocols::pinging_player(root));
            &&& players_in(json::list_of(protocols::profile_rows(after))) == players.push(
                PlayerView {
                    name: entry.name,
                    machine_id: entry.machine_id,
                    easytier_id: entry.easytier_id,
                    vendor: entry.vendor,
                    kind: PlayerKind::Guest,
                },
            )
        }),
{
    introduction_is_read_back(entry);
    let root = json::object_of(protocols::entry_members(entry));
    let player = protocols::pinging_player(root);
    roster::first_with_is_first(players, player.machine_id, 0);
    players_are_read_back(roster::after_ping(players, player));
}

/// A guest sends a heartbeat, and the center reads the same guest from it.
pub proof fn heartbeat_is_read_back(entry: EntryView)
    ensures
        ({
            let root = json::object_of(heartbeat_members(entry));
            &&& protocols::pinging_player(root) == (PlayerView {
                name: entry.name,
                machine_id: entry.machine_id,
                easytier_id: entry.easytier_id,
                vendor: entry.vendor,
                kind: PlayerKind::Host,
            })
            &&& client_conn::machine_named(root) == Some(entry.machine_id)
        }),
{
    let members = heartbeat_members(entry);
    heartbeat_names_are_distinct(entry);
    members_are_found(members, 0);
    members_are_found(members, 2);
    members_are_found(members, 3);
    members_are_found(members, 4);
}

/// The center reads a request of the application's own as the guest made it from its key, where
/// the key is ASCII and the frame's header can describe the request.
pub proof fn custom_request_is_read_back(key: Seq<char>, body: Seq<u8>, rest: Seq<u8>)
    requires
        key.contains(':'),
        key.len() <= u8::MAX,
        body.len() <= u32::MAX,
        vstd::utf8::is_ascii_chars(key),
    ensures
        ({
            let colon = text::first_from(key, ':', 0);
            let request = RequestView {
                namespace: key.take(colon),
                request_type: key.skip(colon + 1),
                body,
            };
            &&& request.key() == key
            &&& protocol_serializer::parsed_request(
                protocol_serializer::request_frame(request) + rest,
            ) == Ok::<RequestView, ErrorView>(request)
        }),
{
    let colon = text::first_from(key, ':', 0);
    text::first_is_a_place(key, ':', 0);
    assert(colon < key.len()) by {
        let i = choose|i: int| 0 <= i < key.len() && key[i] == ':';
        assert(key[i] == ':');
    }
    let request = RequestView { namespace: key.take(colon), request_type: key.skip(colon + 1), body };
    assert(request.key() =~= key);
    protocol_serializer::request_roundtrip(request, rest);
}

/// A guest reads a port exactly from an answer that reports success and has two bytes, of which
/// the first counts 256. The statuses from 32 to 63 say that the game server does not run; any
/// other failure, and a body of another length, is reported with the number that is wrong.
pub proof fn port_is_two_bytes(response: ResponseView)
    ensures
        server_port_in(response) is Ok <==> response.status == 0 && response.body.len() == 2,
        server_port_in(response) matches Ok(port) ==> port == response.body[0] * 256
            + response.body[1],
        32 <= response.status <= 63 ==> server_port_in(response) == Err::<u16, ErrorView>(
            ErrorView::Protocol(
                "MC 服务器未启动 (状态码: "@ + text::decimal(response.status as nat) + ")"@,
            ),
        ),
        0 < response.status < 32 || 63 < response.status ==> server_port_in(response) == Err::<
            u16,
            ErrorView,
        >(
            ErrorView::Protocol(
                "获取服务器端口失败 (状态码: "@ + text::decimal(response.status as nat) + ")"@,
            ),
        ),
        response.status == 0 && response.body.len() != 2 ==> server_port_in(response) == Err::<
            u16,
            ErrorView,
        >(
            ErrorView::Protocol(
                "服务器端口响应长度非法: "@ + text::decimal(response.body.len()) + " 字节"@,
            ),
        ),
{
}

/// A guest's request goes to the key that is made of `c`, a colon and its type.
pub proof fn standard_keys_are_asked(body: Seq<u8>)
    ensures
        standard_request("ping"@, body).key() == "c:ping"@,
        standard_request("protocols"@, body).key() == "c:protocols"@,
        standard_request("server_port"@, body).key() == "c:server_port"@,
        standard_request("player_ping"@, body).key() == "c:player_ping"@,
        standard_request("player_profiles_list"@, body).key() == "c:player_profiles_list"@,
        standard_request("ping"@, body).body == body,
{
    reveal_strlit("c");
    reveal_strlit("ping");
    reveal_strlit("protocols");
    reveal_strlit("server_port");
    reveal_strlit("player_ping");
    reveal_strlit("player_profiles_list");
    reveal_strlit("c:ping");
    reveal_strlit("c:protocols");
    reveal_strlit("c:server_port");
    reveal_strlit("c:player_ping");
    reveal_strlit("c:player_profiles_list");
    assert(standard_request("ping"@, body).key() =~= "c:ping"@);
    assert(standard_request("protocols"@, body).key() =~= "c:protocols"@);
    assert(standard_request("server_port"@, body).key() =~= "c:server_port"@);
    assert(standard_request("player_ping"@, body).key() =~= "c:player_ping"@);
    assert(standard_request("player_profiles_list"@, body).key() =~= "c:player_profiles_list"@);
}

/// A guest that is described without a negotiated node identifier tells none; else it tells its
/// node's identifier, or an empty one where it has none. Name, machine and launcher are its own,
/// and it claims no role.
pub proof fn guest_tells_its_own(
    name: Seq<char>,
    machine_id: Seq<char>,
    vendor: Seq<char>,
    negotiated: Seq<Seq<char>>,
    node_id: Option<Seq<char>>,
)
    ensures
        ({
            let entry = guest_entry(name, machine_id, vendor, negotiated, node_id);
            let tells = negotiated.contains("c:player_easytier_id"@);
            &&& entry.name == name
            &&& entry.machine_id == machine_id
            &&& entry.vendor == vendor
            &&& entry.kind is None
            &&& entry.easytier_id is Some <==> tells
            &&& tells && node_id is Some ==> entry.easytier_id == node_id
            &&& tells && node_id is None ==> entry.easytier_id == Some(Seq::<char>::empty())
        }),
{
}

/// The port that the center tells is the port that a guest reads.
pub proof fn server_port_is_read_back(port: u16)
    ensures
        server_port_in(protocols::success(protocols::port_bytes(port))) == Ok::<u16, ErrorView>(
            port,
        ),
{
}

/// The keys that the center tells are the keys that a guest reads, where there are any and none
/// of them holds a zero character.
pub proof fn keys_are_read_back(keys: Seq<Seq<char>>)
    requires
        keys.len() > 0,
        forall|i: int| 0 <= i < keys.len() ==> !(#[trigger] keys[i]).contains('\0'),
    ensures
        keys_in(encode_utf8(text::join(keys, '\0'))) == keys,
{
    let list = text::join(keys, '\0');
    vstd::utf8::encode_utf8_valid_utf8(list);
    vstd::utf8::encode_utf8_decode_utf8(list);
    text::split_undoes_join(keys, '\0');
}

/// A guest and a center that speak the same keys negotiate all of them: what the center tells
/// of its keys, the guest finds among its own.
pub proof fn same_keys_are_all_negotiated(keys: Seq<Seq<char>>)
    requires
        keys.len() > 0,
        forall|i: int| 0 <= i < keys.len() ==> !(#[trigger] keys[i]).contains('\0'),
    ensures
        protocol_negotiator::common_keys(keys, keys_in(encode_utf8(text::join(keys, '\0'))))
            == keys,
{
    keys_are_read_back(keys);
    all_are_common(keys, keys);
}

proof fn all_are_common(some: Seq<Seq<char>>, keys: Seq<Seq<char>>)
    requires
        forall|i: int| 0 <= i < some.len() ==> keys.contains(#[trigger] some[i]),
    ensures
        protocol_negotiator::common_keys(some, keys) == some,
    decreases some.len(),
{
    reveal(Seq::filter);
    if some.len() > 0 {
        all_are_common(some.drop_last(), keys);
        assert(keys.contains(some[some.len() - 1]));
        assert(some.drop_last().push(some.last()) =~= some);
    }
}

/// Every request of a guest goes to the key of its own protocol, and only the ping and the keys
/// bring anything along: the ping one byte, the keys a text that splits into them again.
pub proof fn requests_go_to_their_keys(keys: Seq<Seq<char>>)
    ensures
        ping_asked().key() == "c:ping"@,
        ping_asked().body.len() == 1,
        ping_asked().body[0] == 0x42,
        port_asked().key() == "c:server_port"@,
        port_asked().body.len() == 0,
        players_asked().key() == "c:player_profiles_list"@,
        players_asked().body.len() == 0,
        keys_asked(keys).key() == "c:protocols"@,
        keys.len() > 0 && (forall|i: int|
            0 <= i < keys.len() ==> !(#[trigger] keys[i]).contains('\0')) ==> keys_in(
            keys_asked(keys).body,
        ) == keys,
{
    standard_keys_are_asked(seq![0x42u8]);
    standard_keys_are_asked(Seq::empty());
    standard_keys_are_asked(keys_asked(keys).body);
    if keys.len() > 0 && (forall|i: int|
        0 <= i < keys.len() ==> !(#[trigger] keys[i]).contains('\0')) {
        keys_are_read_back(keys);
    }
}

/// What a guest reads from an answer are the players that the answer lists, whatever its status:
/// from the list of the center it reads the center's players.
pub proof fn listed_players_are_told(players: Seq<PlayerView>, status: u8, body: Seq<u8>)
    requires
        json::json_parsed(body) == json::parsed_as(
            json::list_of(protocols::profile_rows(players)),
        ),
    ensures
        players_told(ResponseView { status, body }) == Ok::<Seq<PlayerView>, ErrorView>(players),
{
    players_are_read_back(players);
}

/// An answer that is no JSON is reported with the parser's message, one that is JSON but no list
/// tells no players.
pub proof fn unreadable_list_is_reported(response: ResponseView)
    ensures
        json::json_parsed(response.body) matches Err(message) ==> players_told(response) == Err::<
            Seq<PlayerView>,
            ErrorView,
        >(ErrorView::Protocol(message)),
        json::json_parsed(response.body) matches Ok(root) ==> (!(root is Array) ==> players_told(
            response,
        ) == Ok::<Seq<PlayerView>, ErrorView>(Seq::empty())),
{
}

/// A request of the application's own is made of the two halves of its key, cut at the first
/// colon, and brings its body along; a key without a colon is refused.
pub proof fn custom_key_is_cut_at_its_first_colon(
    head: Seq<char>,
    tail: Seq<char>,
    body: Seq<u8>,
)
    requires
        !head.contains(':'),
    ensures
        custom_asked(head.push(':') + tail, body) == Ok::<RequestView, ErrorView>(
            RequestView { namespace: head, request_type: tail, body },
        ),
        custom_asked(head, body) == Err::<RequestView, ErrorView>(
            ErrorView::Protocol("无效的协议键格式: "@ + head),
        ),
{
    let key = head.push(':') + tail;
    assert forall|i: int| 0 <= i < head.len() implies head[i] != ':' by {
        assert(head.contains(head[i]));
    }
    assert forall|i: int| 0 <= i < head.len() implies key[i] != ':' by {
        assert(key[i] == head[i]);
    }
    text::first_is(key, ':', 0, head.len() as int);
    text::first_is(head, ':', 0, head.len() as int);
    assert(key.take(head.len() as int) =~= head);
    assert(key.skip(head.len() as int + 1) =~= tail);
}

/// What the application gets of an answer that reports success is its body, all of it; of any
/// other answer it gets an error with the key and the status.
pub proof fn custom_answer_is_its_body(key: Seq<char>, status: u8, body: Seq<u8>)
    ensures
        custom_told(key, protocols::success(body)) == Ok::<Seq<u8>, ErrorView>(body),
        custom_told(key, ResponseView { status, body }) is Ok <==> status == 0,
        status != 0 ==> custom_told(key, ResponseView { status, body }) == Err::<
            Seq<u8>,
            ErrorView,
        >(
            ErrorView::Protocol(
                "协议 "@ + key + " 返回错误状态: "@ + text::decimal(status as nat),
            ),
        ),
{
}

} // verus!
