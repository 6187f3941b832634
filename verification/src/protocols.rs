//! The protocols that a center answers: `c:ping`, `c:protocols`, `c:server_port`,
//! `c:player_ping`, `c:player_profiles_list`, and protocols of the application's own.
use vstd::prelude::*;
use vstd::utf8::encode_utf8;

use crate::json;
use crate::json::{Json, JsonValue};
use crate::models::player;
use crate::models::player::{
    EntryView, PlayerInfo, PlayerKind, PlayerProfileEntry, PlayerView,
};
use crate::models::protocol::{ProtocolRequest, ProtocolResponse, RequestView, ResponseView};
use crate::text;

verus! {

/// Answers the requests of one protocol key.
pub trait ProtocolHandler: Send + Sync {
    /// The protocol key, such as `c:ping`.
    spec fn key_text(&self) -> Seq<char>;

    /// Whether the handler can be given a request.
    spec fn accepts(&self, request: RequestView) -> bool;

    /// Whether the handler may answer a request with a response.
    spec fn may_answer(&self, request: RequestView, response: ResponseView) -> bool;

    /// The protocol key, such as `c:ping`.
    fn key(&self) -> (key: &str)
        ensures
            key@ == self.key_text(),
    ;

    /// Answers a request.
    fn handle(&self, request: &ProtocolRequest) -> (response: ProtocolResponse)
        requires
            self.accepts(request@),
        ensures
            self.may_answer(request@, response@),
    ;
}

/// The answer that reports success.
pub open spec fn success(body: Seq<u8>) -> ResponseView {
    ResponseView { status: 0, body }
}

/// The answer that reports a failure: status 255 and a message.
pub open spec fn failure(message: Seq<char>) -> ResponseView {
    ResponseView { status: 255, body: encode_utf8(message) }
}

/// The answer that reports a failure: status 255 and a message.
pub fn error_response(message: &str) -> (response: ProtocolResponse)
    ensures
        response@ == failure(message@),
{
    ProtocolResponse { status: 255, body: text::utf8_bytes(message) }
}

// ---------------------------------------------------------------------------------------
// c:ping
// ---------------------------------------------------------------------------------------
/// `c:ping`: sends the request's body back.
#[derive(Debug, Clone, Copy)]
pub struct PingProtocol;

impl Default for PingProtocol {
    fn default() -> (protocol: Self)
        ensures
            protocol == PingProtocol,
    {
        PingProtocol
    }
}

impl ProtocolHandler for PingProtocol {
    open spec fn key_text(&self) -> Seq<char> {
        "c:ping"@
    }

    open spec fn accepts(&self, request: RequestView) -> bool {
        true
    }

    open spec fn may_answer(&self, request: RequestView, response: ResponseView) -> bool {
        response == success(request.body)
    }

    fn key(&self) -> (key: &str) {
        "c:ping"
    }

    fn handle(&self, request: &ProtocolRequest) -> (response: ProtocolResponse) {
        let mut body: Vec<u8> = Vec::new();
        body.extend_from_slice(request.body.as_slice());
        assert(body@ =~= request.body@);
        ProtocolResponse { status: 0, body }
    }
}

// ---------------------------------------------------------------------------------------
// c:protocols
// ---------------------------------------------------------------------------------------
/// `c:protocols`: lists the keys that the center answers, with a zero character between each
/// two.
#[derive(Debug)]
pub struct ProtocolsProtocol {
    supported: Vec<String>,
}

impl ProtocolsProtocol {
    /// The keys that are listed.
    pub closed spec fn supported(&self) -> Seq<Seq<char>> {
        text::texts(self.supported@)
    }

    /// Lists the given keys.
    pub fn new(supported_protocols: Vec<String>) -> (protocol: Self)
        ensures
            protocol.supported() == text::texts(supported_protocols@),
    {
        ProtocolsProtocol { supported: supported_protocols }
    }
}

impl Clone for ProtocolsProtocol {
    fn clone(&self) -> (copy: Self)
        ensures
            copy.supported() == self.supported(),
    {
        ProtocolsProtocol { supported: text::copy_texts(self.supported.as_slice()) }
    }
}

impl ProtocolHandler for ProtocolsProtocol {
    open spec fn key_text(&self) -> Seq<char> {
        "c:protocols"@
    }

    open spec fn accepts(&self, request: RequestView) -> bool {
        true
    }

    open spec fn may_answer(&self, request: RequestView, response: ResponseView) -> bool {
        response == success(encode_utf8(text::join(self.supported(), '\0')))
    }

    fn key(&self) -> (key: &str) {
        "c:protocols"
    }

    fn handle(&self, request: &ProtocolRequest) -> (response: ProtocolResponse) {
        let list = text::join_texts(&self.supported, '\0');
        ProtocolResponse { status: 0, body: text::utf8_bytes(list.as_str()) }
    }
}

// ---------------------------------------------------------------------------------------
// c:server_port
// ---------------------------------------------------------------------------------------
/// `c:server_port`: tells the port of the game server.
#[derive(Debug, Clone, Copy)]
pub struct ServerPortProtocol {
    port: u16,
}

/// A port as two bytes, most significant first.
pub open spec fn port_bytes(port: u16) -> Seq<u8> {
    seq![(port / 256) as u8, (port % 256) as u8]
}

impl ServerPortProtocol {
    /// The port that is told.
    pub closed spec fn port(&self) -> u16 {
        self.port
    }

    /// Tells the given port.
    pub fn new(port: u16) -> (protocol: Self)
        ensures
            protocol.port() == port,
    {
        ServerPortProtocol { port }
    }
}

impl ProtocolHandler for ServerPortProtocol {
    open spec fn key_text(&self) -> Seq<char> {
        "c:server_port"@
    }

    open spec fn accepts(&self, request: RequestView) -> bool {
        true
    }

    open spec fn may_answer(&self, request: RequestView, response: ResponseView) -> bool {
        response == success(port_bytes(self.port()))
    }

    fn key(&self) -> (key: &str) {
        "c:server_port"
    }

    fn handle(&self, request: &ProtocolRequest) -> (response: ProtocolResponse) {
        let mut body: Vec<u8> = Vec::new();
        body.push((self.port / 256) as u8);
        body.push((self.port % 256) as u8);
        assert(body@ =~= port_bytes(self.port));
        ProtocolResponse { status: 0, body }
    }
}

// ---------------------------------------------------------------------------------------
// c:player_ping
// ---------------------------------------------------------------------------------------
/// A value as text: a text as it is, and a number in its notation. Some launchers send
/// identifiers as numbers.
pub open spec fn value_text(value: Json) -> Option<Seq<char>> {
    match value {
        Json::Text(s) => Some(s),
        Json::Signed(n) => Some(text::signed_decimal(n as int)),
        Json::Unsigned(n) => Some(text::decimal(n as nat)),
        Json::Real(s) => Some(s),
        _ => None,
    }
}

/// A member of an object as text.
pub open spec fn member_text(root: Json, name: Seq<char>) -> Option<Seq<char>> {
    match root.get(name) {
        Some(value) => value_text(value),
        None => None,
    }
}

/// A member of an object as text, or the empty text.
pub open spec fn member_text_or_empty(root: Json, name: Seq<char>) -> Seq<char> {
    match member_text(root, name) {
        Some(s) => s,
        None => Seq::empty(),
    }
}

/// The player that a heartbeat describes.
pub open spec fn pinging_player(root: Json) -> PlayerView {
    PlayerView {
        name: member_text_or_empty(root, "name"@),
        machine_id: member_text_or_empty(root, "machine_id"@),
        easytier_id: member_text(root, "easytier_id"@),
        vendor: member_text_or_empty(root, "vendor"@),
        kind: PlayerKind::Host,
    }
}

/// The answer to a heartbeat: whether the player is welcome.
pub open spec fn ping_answer(welcome: bool) -> ResponseView {
    if welcome {
        success(Seq::empty())
    } else {
        failure("玩家已被房主踢出"@)
    }
}

/// A value as text.
pub fn value_to_string(value: &JsonValue) -> (string: Option<String>)
    ensures
        text::optional_text(string) == value_text(value@),
{
    match value {
        JsonValue::Text(s) => Some(s.clone()),
        JsonValue::Signed(n) => Some(text::signed_text(*n)),
        JsonValue::Unsigned(n) => Some(text::decimal_text(*n)),
        JsonValue::Real(s) => Some(s.clone()),
        _ => None,
    }
}

fn member_to_string(root: &JsonValue, name: &str) -> (string: Option<String>)
    ensures
        text::optional_text(string) == member_text(root@, name@),
{
    match root.get(name) {
        Some(value) => value_to_string(value),
        None => None,
    }
}

fn member_or_empty(root: &JsonValue, name: &str) -> (string: String)
    ensures
        string@ == member_text_or_empty(root@, name@),
{
    match member_to_string(root, name) {
        Some(s) => s,
        None => String::new(),
    }
}

/// The player that a heartbeat describes. What is missing or is neither text nor number counts
/// as empty.
pub fn player_from_ping(root: &JsonValue) -> (player: PlayerInfo)
    ensures
        player@ == pinging_player(root@),
{
    PlayerInfo {
        name: member_or_empty(root, "name"),
        machine_id: member_or_empty(root, "machine_id"),
        vendor: member_or_empty(root, "vendor"),
        easytier_id: member_to_string(root, "easytier_id"),
        kind: PlayerKind::Host,
    }
}

/// Reads a heartbeat; the error is the message of the JSON parser.
pub fn parse_player_info(body: &[u8]) -> (player: Result<PlayerInfo, String>)
    ensures
        match player {
            Ok(info) => json::json_parsed(body@) is Ok && info@ == pinging_player(
                json::json_parsed(body@)->Ok_0,
            ),
            Err(message) => json::json_parsed(body@) is Err && message@ == json::json_parsed(
                body@,
            )->Err_0,
        },
{
    match json::parse_json(body) {
        Ok(root) => Ok(player_from_ping(&root)),
        Err(message) => Err(message),
    }
}

/// The answer to a heartbeat that could be read: status 0 where the player is welcome, 255
/// where it was turned away.
pub fn ping_response(welcome: bool) -> (response: ProtocolResponse)
    ensures
        response@ == ping_answer(welcome),
{
    if welcome {
        let response = ProtocolResponse { status: 0, body: Vec::new() };
        assert(response.body@ =~= Seq::empty());
        response
    } else {
        error_response("玩家已被房主踢出")
    }
}

/// `c:player_ping`: hands the player that a heartbeat describes to a callback, which decides
/// whether the player is welcome.
pub struct PlayerPingProtocol<F> {
    on_player_ping: F,
}

impl<F: Fn(PlayerInfo) -> bool> PlayerPingProtocol<F> {
    /// The callback.
    pub closed spec fn callback(&self) -> F {
        self.on_player_ping
    }

    /// Asks the given callback.
    pub fn new(on_player_ping: F) -> (protocol: Self)
        ensures
            protocol.callback() == on_player_ping,
    {
        PlayerPingProtocol { on_player_ping }
    }

    /// Answers a heartbeat: the callback is asked about the player that it describes. One that
    /// cannot be read is refused, and the callback is not asked.
    pub fn answer(&self, request: &ProtocolRequest) -> (response: ProtocolResponse)
        requires
            forall|info: PlayerInfo| #[trigger] call_requires(self.callback(), (info,)),
        ensures
            match json::json_parsed(request@.body) {
                Ok(root) => exists|info: PlayerInfo, welcome: bool|
                    {
                        &&& info@ == pinging_player(root)
                        &&& #[trigger] call_ensures(self.callback(), (info,), welcome)
                        &&& response@ == ping_answer(welcome)
                    },
                Err(message) => response@ == failure("玩家心跳解析失败: "@ + message),
            },
    {
        match parse_player_info(request.body.as_slice()) {
            Ok(info) => {
                assert(call_requires(self.callback(), (info,)));
                let welcome = (self.on_player_ping)(info);
                ping_response(welcome)
            },
            Err(message) => error_response(
                text::concat("玩家心跳解析失败: ", message.as_str()).as_str(),
            ),
        }
    }
}

impl<F: Fn(PlayerInfo) -> bool + Send + Sync> ProtocolHandler for PlayerPingProtocol<F> {
    open spec fn key_text(&self) -> Seq<char> {
        "c:player_ping"@
    }

    open spec fn accepts(&self, request: RequestView) -> bool {
        forall|info: PlayerInfo| #[trigger] call_requires(self.callback(), (info,))
    }

    open spec fn may_answer(&self, request: RequestView, response: ResponseView) -> bool {
        match json::json_parsed(request.body) {
            Ok(root) => exists|info: PlayerInfo, welcome: bool|
                {
                    &&& info@ == pinging_player(root)
                    &&& #[trigger] call_ensures(self.callback(), (info,), welcome)
                    &&& response == ping_answer(welcome)
                },
            Err(message) => response == failure("玩家心跳解析失败: "@ + message),
        }
    }

    fn key(&self) -> (key: &str) {
        "c:player_ping"
    }

    fn handle(&self, request: &ProtocolRequest) -> (response: ProtocolResponse) {
        self.answer(request)
    }
}

// ---------------------------------------------------------------------------------------
// c:player_profiles_list
// ---------------------------------------------------------------------------------------
/// How a role is written.
pub open spec fn kind_text(kind: PlayerKind) -> Seq<char> {
    match kind {
        PlayerKind::Host => "HOST"@,
        PlayerKind::Guest => "GUEST"@,
    }
}

/// The entry of a player.
pub open spec fn entry_of(player: PlayerView) -> EntryView {
    EntryView {
        name: player.name,
        machine_id: player.machine_id,
        easytier_id: player.easytier_id,
        vendor: player.vendor,
        kind: Some(kind_text(player.kind)),
    }
}

/// The members of an entry's JSON object, in their order.
pub open spec fn entry_members(entry: EntryView) -> Seq<(Seq<char>, Option<Seq<char>>)> {
    seq![
        ("name"@, Some(entry.name)),
        ("machine_id"@, Some(entry.machine_id)),
        ("easytier_id"@, entry.easytier_id),
        ("vendor"@, Some(entry.vendor)),
        ("kind"@, entry.kind),
    ]
}

/// The rows of a list of players.
pub open spec fn profile_rows(players: Seq<PlayerView>) -> Seq<
    Seq<(Seq<char>, Option<Seq<char>>)>,
> {
    players.map_values(|p: PlayerView| entry_members(entry_of(p)))
}

/// The answer that lists players.
pub open spec fn profiles_answer(players: Seq<PlayerView>) -> ResponseView {
    success(json::list_written(profile_rows(players)))
}

/// The names of an entry's members differ.
pub proof fn entry_names_are_distinct(entry: EntryView)
    ensures
        json::distinct_names(entry_members(entry)),
{
    reveal_strlit("name");
    reveal_strlit("machine_id");
    reveal_strlit("easytier_id");
    reveal_strlit("vendor");
    reveal_strlit("kind");
    let members = entry_members(entry);
    assert(members[0].0[0] == 'n' && members[4].0[0] == 'k');
    assert(members[0].0.len() == 4 && members[4].0.len() == 4);
    assert(members[1].0.len() == 10 && members[2].0.len() == 11 && members[3].0.len() == 6);
}

/// The entry of a player.
pub fn player_to_entry(player: &PlayerInfo) -> (entry: PlayerProfileEntry)
    ensures
        entry@ == entry_of(player@),
{
    PlayerProfileEntry {
        name: player.name.clone(),
        machine_id: player.machine_id.clone(),
        easytier_id: text::copy_optional(&player.easytier_id),
        vendor: player.vendor.clone(),
        kind: Some(
            match player.kind {
                PlayerKind::Host => "HOST".to_owned(),
                PlayerKind::Guest => "GUEST".to_owned(),
            },
        ),
    }
}

/// The members of an entry's JSON object, in their order.
pub(crate) fn entry_to_members(entry: PlayerProfileEntry) -> (members: Vec<
    (String, Option<String>),
>)
    ensures
        json::members_of(members@) == entry_members(entry@),
        json::distinct_names(json::members_of(members@)),
{
    let mut members: Vec<(String, Option<String>)> = Vec::new();
    members.push(("name".to_owned(), Some(entry.name)));
    members.push(("machine_id".to_owned(), Some(entry.machine_id)));
    members.push(("easytier_id".to_owned(), entry.easytier_id));
    members.push(("vendor".to_owned(), Some(entry.vendor)));
    members.push(("kind".to_owned(), entry.kind));
    assert(json::members_of(members@) =~= entry_members(entry@));
    proof {
        entry_names_are_distinct(entry@);
    }
    members
}

/// The answer that lists players, in their order.
pub fn profiles_response(players: &Vec<PlayerInfo>) -> (response: ProtocolResponse)
    ensures
        response@ == profiles_answer(player::player_views(players@)),
        json::json_parsed(response.body@) == json::parsed_as(
            json::list_of(profile_rows(player::player_views(players@))),
        ),
{
    let ghost views = player::player_views(players@);
    let mut rows: Vec<Vec<(String, Option<String>)>> = Vec::new();
    for i in 0..players.len()
        invariant
            views == player::player_views(players@),
            rows@.len() == i,
            forall|j: int|
                0 <= j < i ==> #[trigger] json::members_of(rows@[j]@) == entry_members(
                    entry_of(views[j]),
                ),
            forall|j: int|
                0 <= j < i ==> json::distinct_names(#[trigger] json::members_of(rows@[j]@)),
    {
        rows.push(entry_to_members(player_to_entry(&players[i])));
    }
    assert(json::rows_of(rows@) =~= profile_rows(views)) by {
        assert forall|j: int| 0 <= j < rows@.len() implies json::rows_of(rows@)[j] == profile_rows(
            views,
        )[j] by {
            assert(json::members_of(rows@[j]@) == entry_members(entry_of(views[j])));
        }
    }
    ProtocolResponse { status: 0, body: json::write_list(&rows) }
}

/// `c:player_profiles_list`: lists the players that a callback returns.
pub struct PlayerProfilesListProtocol<G> {
    get_players: G,
}

impl<G: Fn() -> Vec<PlayerInfo>> PlayerProfilesListProtocol<G> {
    /// The callback.
    pub closed spec fn callback(&self) -> G {
        self.get_players
    }

    /// Lists the players that the given callback returns.
    pub fn new(get_players: G) -> (protocol: Self)
        ensures
            protocol.callback() == get_players,
    {
        PlayerProfilesListProtocol { get_players }
    }

    /// Lists the players that the callback returns, in their order. Reading the body gives the
    /// list back.
    pub fn answer(&self) -> (response: ProtocolResponse)
        requires
            call_requires(self.callback(), ()),
        ensures
            exists|players: Vec<PlayerInfo>|
                {
                    let views = player::player_views(players@);
                    &&& #[trigger] call_ensures(self.callback(), (), players)
                    &&& response@ == profiles_answer(views)
                    &&& json::json_parsed(response@.body) == json::parsed_as(
                        json::list_of(profile_rows(views)),
                    )
                },
    {
        let players = (self.get_players)();
        profiles_response(&players)
    }
}

impl<G: Fn() -> Vec<PlayerInfo> + Send + Sync> ProtocolHandler for PlayerProfilesListProtocol<G> {
    open spec fn key_text(&self) -> Seq<char> {
        "c:player_profiles_list"@
    }

    open spec fn accepts(&self, request: RequestView) -> bool {
        call_requires(self.callback(), ())
    }

    open spec fn may_answer(&self, request: RequestView, response: ResponseView) -> bool {
        exists|players: Vec<PlayerInfo>|
            {
                let views = player::player_views(players@);
                &&& #[trigger] call_ensures(self.callback(), (), players)
                &&& response == profiles_answer(views)
                &&& json::json_parsed(response.body) == json::parsed_as(
                    json::list_of(profile_rows(views)),
                )
            }
    }

    fn key(&self) -> (key: &str) {
        "c:player_profiles_list"
    }

    fn handle(&self, request: &ProtocolRequest) -> (response: ProtocolResponse) {
        self.answer()
    }
}

// ---------------------------------------------------------------------------------------
// Protocols of the application's own
// ---------------------------------------------------------------------------------------
/// Answers requests for a [`DelegateProtocol`].
pub trait Delegate: Send + Sync {
    /// Whether the delegate can be given a request.
    spec fn can_respond(&self, request: RequestView) -> bool;

    /// Whether the delegate may answer a request with a response.
    spec fn may_respond(&self, request: RequestView, response: ResponseView) -> bool;

    /// Answers a request.
    fn respond(&self, request: &ProtocolRequest) -> (response: ProtocolResponse)
        requires
            self.can_respond(request@),
        ensures
            self.may_respond(request@, response@),
    ;
}

/// A function from a request's body to the body of an answer with status 0.
pub struct RawDelegate<F> {
    pub function: F,
}

/// A function from a request to its answer.
pub struct FullDelegate<F> {
    pub function: F,
}

impl<F: Fn(&[u8]) -> Vec<u8>> RawDelegate<F> {
    /// Answers a request with status 0 and the body that the function makes of its body.
    pub fn answer(&self, request: &ProtocolRequest) -> (response: ProtocolResponse)
        requires
            forall|body: &[u8]|
                body@ == request@.body ==> #[trigger] call_requires(self.function, (body,)),
        ensures
            exists|body: &[u8], answer: Vec<u8>|
                {
                    &&& body@ == request@.body
                    &&& #[trigger] call_ensures(self.function, (body,), answer)
                    &&& response@ == success(answer@)
                },
    {
        let body = (self.function)(request.body.as_slice());
        ProtocolResponse { status: 0, body }
    }
}

impl<F: Fn(&ProtocolRequest) -> ProtocolResponse> FullDelegate<F> {
    /// Answers a request with what the function makes of it.
    pub fn answer(&self, request: &ProtocolRequest) -> (response: ProtocolResponse)
        requires
            call_requires(self.function, (request,)),
        ensures
            call_ensures(self.function, (request,), response),
    {
        (self.function)(request)
    }
}

impl<F: Fn(&[u8]) -> Vec<u8> + Send + Sync> Delegate for RawDelegate<F> {
    open spec fn can_respond(&self, request: RequestView) -> bool {
        forall|body: &[u8]|
            body@ == request.body ==> #[trigger] call_requires(self.function, (body,))
    }

    open spec fn may_respond(&self, request: RequestView, response: ResponseView) -> bool {
        exists|body: &[u8], answer: Vec<u8>|
            {
                &&& body@ == request.body
                &&& #[trigger] call_ensures(self.function, (body,), answer)
                &&& response == success(answer@)
            }
    }

    fn respond(&self, request: &ProtocolRequest) -> (response: ProtocolResponse) {
        self.answer(request)
    }
}

impl<F: Fn(&ProtocolRequest) -> ProtocolResponse + Send + Sync> Delegate for FullDelegate<F> {
    open spec fn can_respond(&self, request: RequestView) -> bool {
        forall|r: &ProtocolRequest|
            r@ == request ==> #[trigger] call_requires(self.function, (r,))
    }

    open spec fn may_respond(&self, request: RequestView, response: ResponseView) -> bool {
        exists|r: &ProtocolRequest, answer: ProtocolResponse|
            {
                &&& r@ == request
                &&& #[trigger] call_ensures(self.function, (r,), answer)
                &&& response == answer@
            }
    }

    fn respond(&self, request: &ProtocolRequest) -> (response: ProtocolResponse) {
        self.answer(request)
    }
}

/// A protocol of the application's own: a key, and what answers its requests.
pub struct DelegateProtocol<D> {
    key: String,
    delegate: D,
}

impl<D> DelegateProtocol<D> {
    /// The protocol key.
    pub closed spec fn own_key(&self) -> Seq<char> {
        self.key@
    }

    /// What answers the requests.
    pub closed spec fn delegate(&self) -> D {
        self.delegate
    }
}

impl<F: Fn(&[u8]) -> Vec<u8> + Send + Sync> DelegateProtocol<RawDelegate<F>> {
    /// Answers with status 0 and the body that a function makes of the request's body.
    pub fn new_raw(key: &str, handler: F) -> (protocol: Self)
        ensures
            protocol.own_key() == key@,
            protocol.delegate() == (RawDelegate { function: handler }),
    {
        DelegateProtocol { key: key.to_owned(), delegate: RawDelegate { function: handler } }
    }
}

impl<F: Fn(&ProtocolRequest) -> ProtocolResponse + Send + Sync> DelegateProtocol<FullDelegate<F>> {
    /// Answers with what a function makes of the request.
    pub fn new(key: &str, handler: F) -> (protocol: Self)
        ensures
            protocol.own_key() == key@,
            protocol.delegate() == (FullDelegate { function: handler }),
    {
        DelegateProtocol { key: key.to_owned(), delegate: FullDelegate { function: handler } }
    }
}

impl<D: Delegate> ProtocolHandler for DelegateProtocol<D> {
    open spec fn key_text(&self) -> Seq<char> {
        self.own_key()
    }

    open spec fn accepts(&self, request: RequestView) -> bool {
        self.delegate().can_respond(request)
    }

    open spec fn may_answer(&self, request: RequestView, response: ResponseView) -> bool {
        self.delegate().may_respond(request, response)
    }

    fn key(&self) -> (key: &str) {
        self.key.as_str()
    }

    fn handle(&self, request: &ProtocolRequest) -> (response: ProtocolResponse) {
        self.delegate.respond(request)
    }
}

/// The answer of a protocol whose result is written as JSON, given the bytes or the reason why
/// there are none.
pub open spec fn written_answer(written: Result<Seq<u8>, Seq<char>>) -> ResponseView {
    match written {
        Ok(body) => success(body),
        Err(reason) => failure("响应序列化失败: "@ + reason),
    }
}

/// The answer of a protocol whose result is written as JSON, given the bytes or the reason why
/// there are none.
pub fn json_response(written: Result<Vec<u8>, String>) -> (response: ProtocolResponse)
    ensures
        response@ == written_answer(
            match written {
                Ok(body) => Ok(body@),
                Err(reason) => Err(reason@),
            },
        ),
{
    match written {
        Ok(body) => ProtocolResponse { status: 0, body },
        Err(reason) => error_response(text::concat("响应序列化失败: ", reason.as_str()).as_str()),
    }
}

/// The argument of a protocol that reads its request's body as JSON: the fallback where the
/// body is empty, else what was read. Where it could not be read, the answer that says so.
pub fn json_argument<T>(request: &ProtocolRequest, fallback: T, read: Result<T, String>) -> (argument:
    Result<T, ProtocolResponse>)
    ensures
        match argument {
            Ok(value) => if request@.body.len() == 0 {
                value == fallback
            } else {
                read == Ok::<T, String>(value)
            },
            Err(response) => request@.body.len() > 0 && read is Err && response@ == failure(
                "请求反序列化失败: "@ + read->Err_0@,
            ),
        },
{
    if request.body.len() == 0 {
        return Ok(fallback);
    }
    match read {
        Ok(value) => Ok(value),
        Err(reason) => Err(
            error_response(text::concat("请求反序列化失败: ", reason.as_str()).as_str()),
        ),
    }
}

// ---------------------------------------------------------------------------------------
// Laws
// ---------------------------------------------------------------------------------------
/// `c:ping` is answered with success and the request's own body.
pub proof fn ping_is_echoed(protocol: PingProtocol, request: RequestView, response: ResponseView)
    requires
        protocol.may_answer(request, response),
    ensures
        response.status == 0,
        response.body == request.body,
        protocol.key_text() == "c:ping"@,
{
}

/// `c:protocols` is answered with success and the center's keys, whatever the request holds: a
/// text with a zero character between each two, which splits into the keys again where there are
/// any and none of them holds such a character.
pub proof fn keys_are_told(
    protocol: ProtocolsProtocol,
    request: RequestView,
    response: ResponseView,
)
    requires
        protocol.may_answer(request, response),
        protocol.supported().len() > 0,
        forall|i: int|
            0 <= i < protocol.supported().len() ==> !(#[trigger] protocol.supported()[i]).contains(
                '\0',
            ),
    ensures
        response.status == 0,
        exists|list: Seq<char>|
            response.body == #[trigger] encode_utf8(list) && text::split(list, '\0')
                == protocol.supported(),
        protocol.key_text() == "c:protocols"@,
{
    text::split_undoes_join(protocol.supported(), '\0');
}

/// `c:server_port` is answered with success and two bytes, of which the first counts 256.
pub proof fn port_is_told(
    protocol: ServerPortProtocol,
    request: RequestView,
    response: ResponseView,
)
    requires
        protocol.may_answer(request, response),
    ensures
        response.status == 0,
        response.body.len() == 2,
        response.body[0] * 256 + response.body[1] == protocol.port(),
        protocol.key_text() == "c:server_port"@,
{
}

/// A failure is reported with status 255 and its message in UTF-8; a player who is welcome is
/// answered with status 0 and nothing, one who is turned away with a failure.
pub proof fn failures_have_a_status(message: Seq<char>, body: Seq<u8>)
    ensures
        failure(message).status == 255,
        failure(message).body == encode_utf8(message),
        success(body).status == 0,
        success(body).body == body,
        ping_answer(true).status == 0,
        ping_answer(true).body.len() == 0,
        ping_answer(false).status == 255,
        ping_answer(false).body == encode_utf8("玩家已被房主踢出"@),
{
}

/// What a heartbeat tells of a player: each part under its own name. A text counts as it is, a
/// number in its notation, and anything else as if it were missing; what is missing is empty,
/// but for the node identifier, which is then none.
pub proof fn heartbeat_is_read_member_by_member(root: Json, name: Seq<char>)
    ensures
        ({
            let player = pinging_player(root);
            &&& player.name == member_text_or_empty(root, "name"@)
            &&& player.machine_id == member_text_or_empty(root, "machine_id"@)
            &&& player.vendor == member_text_or_empty(root, "vendor"@)
            &&& player.easytier_id == member_text(root, "easytier_id"@)
            &&& member_text(root, "easytier_id"@) is None ==> player.easytier_id is None
        }),
        root.get(name) matches Some(Json::Text(s)) ==> member_text_or_empty(root, name) == s
            && member_text(root, name) == Some(s),
        root.get(name) matches Some(Json::Real(s)) ==> member_text(root, name) == Some(s),
        root.get(name) matches Some(Json::Unsigned(n)) ==> {
            let s = member_text_or_empty(root, name);
            text::all_digits(s) && text::decimal_value(s) == n
        },
        root.get(name) matches Some(Json::Signed(n)) ==> {
            let s = member_text_or_empty(root, name);
            &&& n >= 0 ==> text::all_digits(s) && text::decimal_value(s) == n
            &&& n < 0 ==> s.len() > 1 && s[0] == '-' && text::all_digits(s.skip(1))
                && text::decimal_value(s.skip(1)) == -n
        },
        root.get(name) is None || root.get(name) == Some(Json::Null) || (
        root.get(name) matches Some(Json::Bool(_))) || (root.get(name) matches Some(Json::Array(_)))
            || (root.get(name) matches Some(Json::Object(_))) ==> member_text(root, name) is None
            && member_text_or_empty(root, name).len() == 0,
{
    match root.get(name) {
        Some(Json::Unsigned(n)) => {
            text::decimal_roundtrip(n as nat);
        },
        Some(Json::Signed(n)) => {
            text::decimal_roundtrip(
                if n < 0 {
                    (-n) as nat
                } else {
                    n as nat
                },
            );
            if n < 0 {
                let digits = text::decimal((-n) as nat);
                assert((seq!['-'] + digits).skip(1) =~= digits);
            }
        },
        _ => {},
    }
}

/// A heartbeat that can be read is answered by what the callback decides about the player that
/// it describes; one that cannot be read is refused with status 255.
pub proof fn heartbeat_is_answered_by_the_callback<F: Fn(PlayerInfo) -> bool + Send + Sync>(
    protocol: PlayerPingProtocol<F>,
    request: RequestView,
    response: ResponseView,
)
    requires
        protocol.may_answer(request, response),
    ensures
        json::json_parsed(request.body) is Err ==> response.status == 255,
        json::json_parsed(request.body) matches Ok(root) ==> {
            ||| response.status == 0 && response.body.len() == 0 && exists|info: PlayerInfo|
                info@ == pinging_player(root) && #[trigger] call_ensures(
                    protocol.callback(),
                    (info,),
                    true,
                )
            ||| response.status == 255 && exists|info: PlayerInfo|
                info@ == pinging_player(root) && #[trigger] call_ensures(
                    protocol.callback(),
                    (info,),
                    false,
                )
        },
{
}

/// `c:player_profiles_list` is answered with success and a list that reads as one row for each of
/// the players that the callback returned, in their order.
pub proof fn players_are_listed<G: Fn() -> Vec<PlayerInfo> + Send + Sync>(
    protocol: PlayerProfilesListProtocol<G>,
    request: RequestView,
    response: ResponseView,
)
    requires
        protocol.may_answer(request, response),
    ensures
        response.status == 0,
        protocol.key_text() == "c:player_profiles_list"@,
        exists|players: Vec<PlayerInfo>|
            {
                &&& #[trigger] call_ensures(protocol.callback(), (), players)
                &&& json::json_parsed(response.body) matches Ok(Json::Array(rows)) && rows.len()
                    == players@.len()
            },
{
}

/// A protocol of the application's own answers by its own key; one that is a function from body
/// to body answers with success and what the function made of the request's body, one that is a
/// function from request to answer with that answer.
pub proof fn delegates_answer<F: Fn(&[u8]) -> Vec<u8> + Send + Sync, D: Delegate>(
    raw: DelegateProtocol<RawDelegate<F>>,
    any: DelegateProtocol<D>,
    request: RequestView,
    response: ResponseView,
)
    ensures
        raw.key_text() == raw.own_key(),
        any.key_text() == any.own_key(),
        any.may_answer(request, response) ==> any.delegate().may_respond(request, response),
        raw.delegate().may_respond(request, response) ==> response.status == 0 && exists|
            body: &[u8],
            answer: Vec<u8>,
        |
            {
                &&& body@ == request.body
                &&& #[trigger] call_ensures(raw.delegate().function, (body,), answer)
                &&& response.body == answer@
            },
{
}

/// A result that could be written is sent as it is, with success; one that could not be is
/// reported with status 255 and the reason.
pub proof fn written_result_is_sent(body: Seq<u8>, reason: Seq<char>)
    ensures
        written_answer(Ok(body)).status == 0,
        written_answer(Ok(body)).body == body,
        written_answer(Err(reason)).status == 255,
        written_answer(Err(reason)).body == encode_utf8("响应序列化失败: "@ + reason),
{
}

} // verus!
