//! The center of a room: how it starts, whom it lists as players and what it tells guests.
use vstd::prelude::*;

use crate::center::roster;
use crate::center::tcp_server;
use crate::error::{ErrorView, ScaffoldingError};
use crate::models::network_config;
use crate::models::network_config::{ConfigView, NetworkConfig};
use crate::models::player;
use crate::models::player::{PlayerInfo, PlayerKind, PlayerView};
use crate::models::room_code;
use crate::models::room_code::RoomCode;
use crate::protocols;
use crate::session::center_discovery;
use crate::text;

verus! {

/// The first port that is tried.
pub const FIRST_PORT: u16 = 1025;

/// The port behind the last one that is tried.
pub const PORTS_END: u16 = 65535;

/// The port that is used where none of those that are tried is free.
pub const FALLBACK_PORT: u16 = 25000;

/// How long to wait for the server before the network is joined, in milliseconds.
pub const SERVER_START_MS: u64 = 200;

/// The address of a center in the virtual network.
pub const CENTER_IP: &'static str = "10.144.144.1";

// ---------------------------------------------------------------------------------------
// The keys that a center tells guests
// ---------------------------------------------------------------------------------------
/// The keys that every center and every guest knows.
pub open spec fn standard_keys() -> Seq<Seq<char>> {
    seq![
        "c:ping"@,
        "c:protocols"@,
        "c:server_port"@,
        "c:player_ping"@,
        "c:player_profiles_list"@,
        "c:player_easytier_id"@,
    ]
}

/// Whether the key at a place is a standard one or stands at an earlier place.
pub open spec fn conflicts_at(custom: Seq<Seq<char>>, i: int) -> bool {
    (standard_keys() + custom.take(i)).contains(custom[i])
}

/// The keys that a center tells guests: the standard ones and its own. The first of its own
/// that is there already is an error.
pub open spec fn advertised(custom: Seq<Seq<char>>) -> Result<Seq<Seq<char>>, ErrorView>
    decreases custom.len(),
{
    if custom.len() == 0 {
        Ok(standard_keys())
    } else {
        match advertised(custom.drop_last()) {
            Ok(keys) => if keys.contains(custom.last()) {
                Err(ErrorView::Protocol("自定义协议键冲突: "@ + custom.last()))
            } else {
                Ok(keys.push(custom.last()))
            },
            Err(error) => Err(error),
        }
    }
}

/// The keys that every center and every guest knows.
pub fn standard_key_list() -> (keys: Vec<String>)
    ensures
        text::texts(keys@) == standard_keys(),
{
    let mut keys: Vec<String> = Vec::new();
    keys.push("c:ping".to_owned());
    keys.push("c:protocols".to_owned());
    keys.push("c:server_port".to_owned());
    keys.push("c:player_ping".to_owned());
    keys.push("c:player_profiles_list".to_owned());
    keys.push("c:player_easytier_id".to_owned());
    assert(text::texts(keys@) =~= standard_keys());
    keys
}

/// Once a key conflicts, what follows it does not matter.
proof fn conflict_decides(custom: Seq<Seq<char>>, i: int)
    requires
        0 <= i <= custom.len(),
        advertised(custom.take(i)) is Err,
    ensures
        advertised(custom) == advertised(custom.take(i)),
    decreases custom.len() - i,
{
    if i < custom.len() {
        assert(custom.take(i + 1).drop_last() =~= custom.take(i));
        conflict_decides(custom, i + 1);
    } else {
        assert(custom.take(i) =~= custom);
    }
}

/// The keys that a center tells guests: the standard ones and its own, none of which may be
/// there already.
pub fn advertised_keys(custom: &Vec<String>) -> (keys: Result<Vec<String>, ScaffoldingError>)
    ensures
        match keys {
            Ok(list) => advertised(text::texts(custom@)) == Ok::<Seq<Seq<char>>, ErrorView>(
                text::texts(list@),
            ),
            Err(error) => advertised(text::texts(custom@)) == Err::<Seq<Seq<char>>, ErrorView>(
                error@,
            ),
        },
{
    let ghost own = text::texts(custom@);
    let mut keys = standard_key_list();
    for i in 0..custom.len()
        invariant
            own == text::texts(custom@),
            advertised(own.take(i as int)) == Ok::<Seq<Seq<char>>, ErrorView>(text::texts(keys@)),
    {
        assert(own.take(i + 1).drop_last() =~= own.take(i as int));
        assert(own.take(i + 1).last() == custom@[i as int]@);
        if text::list_contains(keys.as_slice(), custom[i].as_str()) {
            proof {
                conflict_decides(own, i + 1);
            }
            return Err(
                ScaffoldingError::Protocol(text::concat("自定义协议键冲突: ", custom[i].as_str())),
            );
        }
        let ghost before = keys@;
        keys.push(custom[i].clone());
        assert(text::texts(keys@) =~= text::texts(before).push(own[i as int]));
    }
    assert(own.take(own.len() as int) =~= own);
    Ok(keys)
}

// ---------------------------------------------------------------------------------------
// The handlers that a center serves
// ---------------------------------------------------------------------------------------
/// The key that no handler stands behind: it only tells the other side that node identifiers
/// are understood.
pub const NODE_ID_KEY: &'static str = "c:player_easytier_id";

/// The handlers of the standard protocols.
#[derive(Debug)]
pub struct StandardHandlers<H> {
    /// Answers `c:ping`.
    pub ping: H,
    /// Answers `c:protocols`.
    pub protocols: H,
    /// Answers `c:server_port`.
    pub server_port: H,
    /// Answers `c:player_ping`.
    pub player_ping: H,
    /// Answers `c:player_profiles_list`.
    pub player_profiles_list: H,
}

/// The handlers of the standard protocols, with their keys.
pub open spec fn standard_pairs<H>(standard: StandardHandlers<H>) -> Seq<(Seq<char>, H)> {
    seq![
        ("c:ping"@, standard.ping),
        ("c:protocols"@, standard.protocols),
        ("c:server_port"@, standard.server_port),
        ("c:player_ping"@, standard.player_ping),
        ("c:player_profiles_list"@, standard.player_profiles_list),
    ]
}

/// The handlers that a center serves, with their keys: the standard ones and its own.
pub open spec fn served<H>(
    standard: StandardHandlers<H>,
    custom: Seq<(Seq<char>, H)>,
) -> Seq<(Seq<char>, H)> {
    standard_pairs(standard) + custom
}

/// The keys of handlers.
pub open spec fn keys_of<H>(handlers: Seq<(Seq<char>, H)>) -> Seq<Seq<char>> {
    handlers.map_values(|h: (Seq<char>, H)| h.0)
}

/// The handlers that a center serves, with their keys: the standard ones and its own.
pub fn served_handlers<H>(standard: StandardHandlers<H>, custom: Vec<(String, H)>) -> (handlers: Vec<
    (String, H),
>)
    ensures
        tcp_server::keyed(handlers@) == served(standard, tcp_server::keyed(custom@)),
{
    let ghost own = tcp_server::keyed(custom@);
    let ghost first = standard_pairs(standard);
    let mut handlers: Vec<(String, H)> = Vec::new();
    handlers.push(("c:ping".to_owned(), standard.ping));
    handlers.push(("c:protocols".to_owned(), standard.protocols));
    handlers.push(("c:server_port".to_owned(), standard.server_port));
    handlers.push(("c:player_ping".to_owned(), standard.player_ping));
    handlers.push(("c:player_profiles_list".to_owned(), standard.player_profiles_list));
    assert(tcp_server::keyed(handlers@) =~= first);
    let mut more = custom;
    handlers.append(&mut more);
    assert(tcp_server::keyed(handlers@) =~= first + own);
    handlers
}

// ---------------------------------------------------------------------------------------
// The network of a center
// ---------------------------------------------------------------------------------------
/// How a center joins the virtual network of its room.
pub open spec fn center_config(
    room_code: Seq<char>,
    tcp_port: u16,
    minecraft_port: u16,
    relay_nodes: Option<Seq<Seq<char>>>,
    elevated: bool,
    bind_ip: Option<Seq<char>>,
) -> ConfigView {
    ConfigView {
        network_name: "scaffolding-mc-"@ + room_code::network_part(room_code),
        network_secret: room_code::secret_half(room_code),
        hostname: center_discovery::center_hostname(tcp_port),
        no_tun: !elevated,
        ipv4: Some(CENTER_IP@),
        dhcp: false,
        tcp_whitelist: seq![
            text::decimal(tcp_port as nat),
            text::decimal(minecraft_port as nat),
        ],
        relay_nodes,
        bind_ip,
        ..network_config::default_config()
    }
}

/// The texts that an optional list of strings holds.
pub open spec fn optional_texts(list: Option<Vec<String>>) -> Option<Seq<Seq<char>>> {
    match list {
        Some(strings) => Some(text::texts(strings@)),
        None => None,
    }
}

/// A copy of an optional list of strings.
pub fn copy_list(list: &Option<Vec<String>>) -> (copy: Option<Vec<String>>)
    ensures
        optional_texts(copy) == optional_texts(*list),
{
    match list {
        Some(strings) => Some(text::copy_texts(strings.as_slice())),
        None => None,
    }
}

// ---------------------------------------------------------------------------------------
// The search for a port
// ---------------------------------------------------------------------------------------
/// What the search for a port does next.
pub enum PortStep {
    /// Try this port.
    Try(u16),
    /// Use this port.
    Use(u16),
}

/// What follows when a port was tried: a free port is used, behind a taken one the next is
/// tried, and where all are taken the fallback is used.
pub open spec fn port_step(port: u16, free: bool) -> PortStep {
    if free {
        PortStep::Use(port)
    } else if port + 1 < PORTS_END {
        PortStep::Try((port + 1) as u16)
    } else {
        PortStep::Use(FALLBACK_PORT)
    }
}

/// The port that the search ends with, from a port on, where it is given which ports are free.
pub open spec fn searched_port(free: spec_fn(u16) -> bool, port: u16) -> u16
    decreases PORTS_END - port,
{
    match port_step(port, free(port)) {
        PortStep::Try(next) => if port < next < PORTS_END {
            searched_port(free, next)
        } else {
            FALLBACK_PORT
        },
        PortStep::Use(chosen) => chosen,
    }
}

/// What follows when a port was tried.
pub fn next_port(port: u16, free: bool) -> (step: PortStep)
    ensures
        step == port_step(port, free),
{
    if free {
        PortStep::Use(port)
    } else if port < PORTS_END - 1 {
        PortStep::Try(port + 1)
    } else {
        PortStep::Use(FALLBACK_PORT)
    }
}

// ---------------------------------------------------------------------------------------
// The center
// ---------------------------------------------------------------------------------------
/// How far the start of a center is.
#[derive(Debug, Clone, Copy, PartialEq, Eq, Structural)]
pub enum StartStage {
    /// Not started, or started and stopped.
    Idle,
    /// Waits whether this port is free.
    Scanning(u16),
    /// Waits for the server.
    Serving,
    /// Waits for the virtual network.
    Joining,
    /// Started.
    Running,
}

/// What happened during the start of a center.
pub enum StartEvent {
    /// The center is to be started.
    Begin,
    /// Whether the port that was tried is free.
    PortTried(bool),
    /// The server runs. Whether the process has elevated rights, and the address to bind to.
    Served(bool, Option<String>),
    /// The virtual network is joined. The identifier of the center's node, where it is known.
    Joined(Option<String>),
    /// The virtual network could not be joined.
    JoinFailed(ScaffoldingError),
}

/// What to do next to start a center.
pub enum StartAction {
    /// Try whether this port is free.
    TryPort(u16),
    /// Run the server on this port, and tell guests these keys. Then wait for
    /// [`SERVER_START_MS`].
    Serve(u16, Vec<String>),
    /// Join the virtual network.
    Join(NetworkConfig),
    /// Tell whoever watches the players that they changed; the center is started.
    Started,
    /// The start failed.
    Fail(ScaffoldingError),
    /// Nothing: the event does not fit the stage.
    Ignore,
}

/// The center of a room.
#[derive(Debug)]
pub struct ScaffoldingCenter {
    room_code: RoomCode,
    player_name: String,
    machine_id: String,
    vendor: String,
    minecraft_port: u16,
    players: Vec<PlayerInfo>,
    relay_nodes: Option<Vec<String>>,
    custom_keys: Vec<String>,
    tcp_port: u16,
    stage: StartStage,
}

/// What a center holds.
#[verifier::ext_equal]
pub struct CenterState {
    pub room_code: Seq<char>,
    pub player_name: Seq<char>,
    pub machine_id: Seq<char>,
    pub vendor: Seq<char>,
    pub minecraft_port: u16,
    pub players: Seq<PlayerView>,
    pub relay_nodes: Option<Seq<Seq<char>>>,
    pub custom_keys: Seq<Seq<char>>,
    pub tcp_port: u16,
    pub stage: StartStage,
}

impl View for ScaffoldingCenter {
    type V = CenterState;

    closed spec fn view(&self) -> CenterState {
        CenterState {
            room_code: self.room_code@,
            player_name: self.player_name@,
            machine_id: self.machine_id@,
            vendor: self.vendor@,
            minecraft_port: self.minecraft_port,
            players: player::player_views(self.players@),
            relay_nodes: optional_texts(self.relay_nodes),
            custom_keys: text::texts(self.custom_keys@),
            tcp_port: self.tcp_port,
            stage: self.stage,
        }
    }
}

/// A center that is not started.
pub open spec fn created(
    room_code: Seq<char>,
    player_name: Seq<char>,
    machine_id: Seq<char>,
    vendor: Seq<char>,
    minecraft_port: u16,
    relay_nodes: Option<Seq<Seq<char>>>,
    custom_keys: Seq<Seq<char>>,
) -> CenterState {
    CenterState {
        room_code,
        player_name,
        machine_id,
        vendor,
        minecraft_port,
        players: Seq::empty(),
        relay_nodes,
        custom_keys,
        tcp_port: 0,
        stage: StartStage::Idle,
    }
}

impl CenterState {
    /// The player who opened the room.
    pub open spec fn host(self, node_id: Option<Seq<char>>) -> PlayerView {
        PlayerView {
            name: self.player_name,
            machine_id: self.machine_id,
            easytier_id: node_id,
            vendor: self.vendor,
            kind: PlayerKind::Host,
        }
    }

    /// The center after a player's heartbeat.
    pub open spec fn after_ping(self, info: PlayerView) -> Self {
        CenterState { players: roster::after_ping(self.players, info), ..self }
    }

    /// The center after a player was removed.
    pub open spec fn after_removal(self, machine: Seq<char>) -> Self {
        CenterState { players: roster::after_disconnect(self.players, machine), ..self }
    }

    /// The center after a guest's connection ended.
    pub open spec fn after_connection(self, machine: Seq<char>) -> Self {
        CenterState { players: roster::after_connection(self.players, machine), ..self }
    }
}

/// Whether the center has chosen its port, and serves it or failed on a key of its own that is
/// there already.
pub open spec fn port_chosen(
    before: CenterState,
    port: u16,
    after: CenterState,
    action: StartAction,
) -> bool {
    match advertised(before.custom_keys) {
        Ok(keys) => {
            &&& after == (CenterState { tcp_port: port, stage: StartStage::Serving, ..before })
            &&& action matches StartAction::Serve(served, list) && served == port && text::texts(
                list@,
            ) == keys
        },
        Err(conflict) => {
            &&& after == (CenterState { tcp_port: port, stage: StartStage::Idle, ..before })
            &&& action matches StartAction::Fail(error) && error@ == conflict
        },
    }
}

/// What follows an event during the start of a center: the center after it, and what to do.
pub open spec fn start_stepped(
    before: CenterState,
    event: StartEvent,
    after: CenterState,
    action: StartAction,
) -> bool {
    match (before.stage, event) {
        (_, StartEvent::Begin) => {
            &&& after == (CenterState { stage: StartStage::Scanning(FIRST_PORT), ..before })
            &&& action == StartAction::TryPort(FIRST_PORT)
        },
        (StartStage::Scanning(port), StartEvent::PortTried(free)) => match port_step(port, free) {
            PortStep::Try(next) => {
                &&& after == (CenterState { stage: StartStage::Scanning(next), ..before })
                &&& action == StartAction::TryPort(next)
            },
            PortStep::Use(chosen) => port_chosen(before, chosen, after, action),
        },
        (StartStage::Serving, StartEvent::Served(elevated, bind_ip)) => {
            &&& after == (CenterState { stage: StartStage::Joining, ..before })
            &&& action matches StartAction::Join(config) && config@ == center_config(
                before.room_code,
                before.tcp_port,
                before.minecraft_port,
                before.relay_nodes,
                elevated,
                text::optional_text(bind_ip),
            )
        },
        (StartStage::Joining, StartEvent::Joined(node_id)) => {
            &&& after == (CenterState {
                stage: StartStage::Running,
                players: before.players.push(before.host(text::optional_text(node_id))),
                ..before
            })
            &&& action is Started
        },
        (StartStage::Joining, StartEvent::JoinFailed(reason)) => {
            &&& after == (CenterState { stage: StartStage::Idle, ..before })
            &&& action matches StartAction::Fail(error) && error@ == reason@
        },
        _ => after == before && action is Ignore,
    }
}

/// Whether a player who sends a heartbeat is welcome, and the center after it. Where the
/// application decides, its verdict counts and the list of players is left to it; else every
/// player is welcome, and listed.
pub open spec fn welcomed(
    before: CenterState,
    info: PlayerView,
    verdict: Option<bool>,
    after: CenterState,
    welcome: bool,
) -> bool {
    match verdict {
        Some(decided) => welcome == decided && after == before,
        None => welcome && after == before.after_ping(info),
    }
}

impl ScaffoldingCenter {
    /// A center that is not started. `custom_keys` are the keys of the protocols that the
    /// application adds.
    pub fn new(
        room_code: RoomCode,
        player_name: String,
        machine_id: String,
        vendor: String,
        minecraft_port: u16,
        relay_nodes: Option<Vec<String>>,
        custom_keys: Vec<String>,
    ) -> (center: Self)
        ensures
            center@ == created(
                room_code@,
                player_name@,
                machine_id@,
                vendor@,
                minecraft_port,
                optional_texts(relay_nodes),
                text::texts(custom_keys@),
            ),
    {
        let center = ScaffoldingCenter {
            room_code,
            player_name,
            machine_id,
            vendor,
            minecraft_port,
            players: Vec::new(),
            relay_nodes,
            custom_keys,
            tcp_port: 0,
            stage: StartStage::Idle,
        };
        assert(center@.players =~= Seq::empty());
        center
    }

    /// The room's code.
    pub fn room_code(&self) -> (code: &RoomCode)
        ensures
            code@ == self@.room_code,
    {
        &self.room_code
    }

    /// The port of the game server.
    pub fn minecraft_port(&self) -> (port: u16)
        ensures
            port == self@.minecraft_port,
    {
        self.minecraft_port
    }

    /// The host's name.
    pub fn player_name(&self) -> (name: &str)
        ensures
            name@ == self@.player_name,
    {
        self.player_name.as_str()
    }

    /// The identifier of the host's machine.
    pub fn machine_id(&self) -> (machine: &str)
        ensures
            machine@ == self@.machine_id,
    {
        self.machine_id.as_str()
    }

    /// The host's launcher.
    pub fn vendor(&self) -> (vendor: &str)
        ensures
            vendor@ == self@.vendor,
    {
        self.vendor.as_str()
    }

    /// The players, in the order in which they joined.
    pub fn get_players(&self) -> (players: Vec<PlayerInfo>)
        ensures
            player::player_views(players@) == self@.players,
    {
        roster::copy_players(&self.players)
    }

    /// The port that the center serves; zero before it was chosen.
    pub fn tcp_port(&self) -> (port: u16)
        ensures
            port == self@.tcp_port,
    {
        self.tcp_port
    }

    fn choose_port(&mut self, port: u16) -> (action: StartAction)
        ensures
            port_chosen(old(self)@, port, final(self)@, action),
    {
        self.tcp_port = port;
        match advertised_keys(&self.custom_keys) {
            Ok(keys) => {
                self.stage = StartStage::Serving;
                StartAction::Serve(port, keys)
            },
            Err(error) => {
                self.stage = StartStage::Idle;
                StartAction::Fail(error)
            },
        }
    }

    fn network_config(&self, elevated: bool, bind_ip: Option<String>) -> (config: NetworkConfig)
        ensures
            config@ == center_config(
                self@.room_code,
                self@.tcp_port,
                self@.minecraft_port,
                self@.relay_nodes,
                elevated,
                text::optional_text(bind_ip),
            ),
    {
        let mut tcp_whitelist: Vec<String> = Vec::new();
        tcp_whitelist.push(text::decimal_text(self.tcp_port as u64));
        tcp_whitelist.push(text::decimal_text(self.minecraft_port as u64));
        let config = NetworkConfig {
            network_name: self.room_code.easy_tier_network_name(),
            network_secret: self.room_code.easy_tier_network_secret().to_owned(),
            hostname: center_discovery::center_hostname_text(self.tcp_port),
            no_tun: !elevated,
            use_smoltcp: false,
            dhcp: false,
            ipv4: Some(CENTER_IP.to_owned()),
            listen_random_ports: true,
            tcp_whitelist,
            port_forwards: Vec::new(),
            relay_nodes: copy_list(&self.relay_nodes),
            bind_ip,
        };
        assert(config@ =~~= center_config(
            self@.room_code,
            self@.tcp_port,
            self@.minecraft_port,
            self@.relay_nodes,
            elevated,
            text::optional_text(bind_ip),
        ));
        config
    }

    /// What follows an event during the start: a port is searched, the server runs, the
    /// virtual network is joined, and the host becomes the first player.
    pub fn step(&mut self, event: StartEvent) -> (action: StartAction)
        ensures
            start_stepped(old(self)@, event, final(self)@, action),
    {
        match (self.stage, event) {
            (_, StartEvent::Begin) => {
                self.stage = StartStage::Scanning(FIRST_PORT);
                StartAction::TryPort(FIRST_PORT)
            },
            (StartStage::Scanning(port), StartEvent::PortTried(free)) => match next_port(
                port,
                free,
            ) {
                PortStep::Try(next) => {
                    self.stage = StartStage::Scanning(next);
                    StartAction::TryPort(next)
                },
                PortStep::Use(chosen) => self.choose_port(chosen),
            },
            (StartStage::Serving, StartEvent::Served(elevated, bind_ip)) => {
                let config = self.network_config(elevated, bind_ip);
                self.stage = StartStage::Joining;
                StartAction::Join(config)
            },
            (StartStage::Joining, StartEvent::Joined(node_id)) => {
                let host = PlayerInfo {
                    name: self.player_name.clone(),
                    machine_id: self.machine_id.clone(),
                    easytier_id: node_id,
                    vendor: self.vendor.clone(),
                    kind: PlayerKind::Host,
                };
                self.players.push(host);
                self.stage = StartStage::Running;
                assert(self@.players =~= old(self)@.players.push(host@));
                StartAction::Started
            },
            (StartStage::Joining, StartEvent::JoinFailed(error)) => {
                self.stage = StartStage::Idle;
                StartAction::Fail(error)
            },
            _ => StartAction::Ignore,
        }
    }

    /// Takes a player's heartbeat into account: updates the player with its machine, or adds
    /// the machine as a guest.
    pub fn handle_player_ping(&mut self, info: PlayerInfo)
        ensures
            final(self)@ == old(self)@.after_ping(info@),
    {
        roster::note_ping(&mut self.players, info);
    }

    /// Whether a player who sends a heartbeat is welcome. Where the application decides, its
    /// verdict counts and the list of players is left to it; else every player is welcome, and
    /// listed.
    pub fn welcome(&mut self, info: PlayerInfo, verdict: Option<bool>) -> (welcome: bool)
        ensures
            welcomed(old(self)@, info@, verdict, final(self)@, welcome),
    {
        match verdict {
            Some(decided) => decided,
            None => {
                self.handle_player_ping(info);
                true
            },
        }
    }

    /// Removes a player, unless it is the host.
    pub fn remove_player(&mut self, machine_id: &str)
        ensures
            final(self)@ == old(self)@.after_removal(machine_id@),
    {
        roster::note_disconnect(&mut self.players, machine_id);
    }

    /// Takes into account that a guest's connection ended. Where the guest's machine is not
    /// known, its identifier is empty and no player leaves.
    pub fn client_disconnected(&mut self, machine_id: &str)
        ensures
            final(self)@ == old(self)@.after_connection(machine_id@),
    {
        if text::chars_of(machine_id).len() > 0 {
            self.remove_player(machine_id);
        }
    }
}

// ---------------------------------------------------------------------------------------
// Laws
// ---------------------------------------------------------------------------------------
/// The search for a port ends with the first port that is free, and with the fallback only
/// where none of the ports that are tried is.
pub proof fn search_finds_the_first_free_port(free: spec_fn(u16) -> bool, from: u16)
    requires
        FIRST_PORT <= from < PORTS_END,
    ensures
        ({
            let chosen = searched_port(free, from);
            ||| {
                &&& from <= chosen < PORTS_END
                &&& free(chosen)
                &&& forall|p: u16| from <= p < chosen ==> !#[trigger] free(p)
            }
            ||| {
                &&& chosen == FALLBACK_PORT
                &&& forall|p: u16| from <= p < PORTS_END ==> !#[trigger] free(p)
            }
        }),
    decreases PORTS_END - from,
{
    if !free(from) && from + 1 < PORTS_END {
        search_finds_the_first_free_port(free, (from + 1) as u16);
    }
}

/// Every port that a center ends up with is one that guests find: it is above 1024.
pub proof fn center_is_discoverable(free: spec_fn(u16) -> bool, from: u16)
    requires
        FIRST_PORT <= from < PORTS_END,
    ensures
        center_discovery::hostname_port(
            center_discovery::center_hostname(searched_port(free, from)),
        ) == Some(searched_port(free, from)),
{
    search_finds_the_first_free_port(free, from);
    center_discovery::center_hostname_tells_the_port(searched_port(free, from));
}

// ---------------------------------------------------------------------------------------
// Laws on the whole start of a center
// ---------------------------------------------------------------------------------------
/// Whether the step with a number leads from its state to the next one.
pub open spec fn start_step_at(
    states: Seq<CenterState>,
    events: Seq<StartEvent>,
    actions: Seq<StartAction>,
    i: int,
) -> bool {
    start_stepped(states[i], events[i], states[i + 1], actions[i])
}

/// Whether states, events and actions are those of a start, step by step.
pub open spec fn start_run(
    states: Seq<CenterState>,
    events: Seq<StartEvent>,
    actions: Seq<StartAction>,
) -> bool {
    &&& states.len() == events.len() + 1
    &&& actions.len() == events.len()
    &&& forall|i: int| 0 <= i < events.len() ==> #[trigger] start_step_at(states, events, actions, i)
}

/// No step of the start changes what the center was created with.
pub proof fn start_keeps_what_was_given(
    states: Seq<CenterState>,
    events: Seq<StartEvent>,
    actions: Seq<StartAction>,
    n: int,
)
    requires
        start_run(states, events, actions),
        0 <= n < states.len(),
    ensures
        states[n].room_code == states[0].room_code,
        states[n].player_name == states[0].player_name,
        states[n].machine_id == states[0].machine_id,
        states[n].vendor == states[0].vendor,
        states[n].minecraft_port == states[0].minecraft_port,
        states[n].relay_nodes == states[0].relay_nodes,
        states[n].custom_keys == states[0].custom_keys,
    decreases n,
{
    if n > 0 {
        start_keeps_what_was_given(states, events, actions, n - 1);
        assert(start_step_at(states, events, actions, n - 1));
    }
}

/// The server runs on the port that the center holds when it joins the network, and guests were
/// told the standard keys and the center's own.
proof fn served_port_is_held(
    states: Seq<CenterState>,
    events: Seq<StartEvent>,
    actions: Seq<StartAction>,
    n: int,
) -> (k: int)
    requires
        start_run(states, events, actions),
        0 <= n < states.len(),
        states[0].stage is Idle,
        states[n].stage is Serving || states[n].stage is Joining,
    ensures
        0 <= k < n,
        actions[k] matches StartAction::Serve(port, keys) && {
            &&& port == states[n].tcp_port
            &&& text::texts(keys@) == standard_keys() + states[0].custom_keys
        },
    decreases n,
{
    assert(n > 0);
    assert(start_step_at(states, events, actions, n - 1));
    if states[n].stage is Serving && states[n - 1].stage is Scanning {
        start_keeps_what_was_given(states, events, actions, n - 1);
        advertised_keys_are_distinct(states[0].custom_keys);
        n - 1
    } else {
        served_port_is_held(states, events, actions, n - 1)
    }
}

/// The configuration that a center joins the network with is that of its room: the network's
/// name and secret are the two halves of the code, the relay nodes are exactly those that the
/// center was created with (none where it was created without), the address is fixed, the host
/// name ends in the port that the server runs on, and other nodes may reach that port and the
/// game server's, and no other.
pub proof fn center_joins_as_it_was_created(
    room_code: Seq<char>,
    player_name: Seq<char>,
    machine_id: Seq<char>,
    vendor: Seq<char>,
    minecraft_port: u16,
    relay_nodes: Option<Seq<Seq<char>>>,
    custom_keys: Seq<Seq<char>>,
    states: Seq<CenterState>,
    events: Seq<StartEvent>,
    actions: Seq<StartAction>,
    n: int,
) -> (k: int)
    requires
        start_run(states, events, actions),
        states[0] == created(
            room_code,
            player_name,
            machine_id,
            vendor,
            minecraft_port,
            relay_nodes,
            custom_keys,
        ),
        0 <= n < actions.len(),
        actions[n] is Join,
    ensures
        0 <= k < n,
        actions[k] is Serve,
        text::texts(actions[k]->Serve_1@) == standard_keys() + custom_keys,
        events[n] is Served,
        ({
            let config = actions[n]->Join_0@;
            let port = actions[k]->Serve_0;
            &&& config.relay_nodes == relay_nodes
            &&& config.network_name == "scaffolding-mc-"@ + room_code.subrange(2, 11)
            &&& config.network_secret == room_code.subrange(12, 21)
            &&& config.hostname == "scaffolding-mc-server-"@ + text::decimal(port as nat)
            &&& config.tcp_whitelist.len() == 2
            &&& config.tcp_whitelist[0] == text::decimal(port as nat)
            &&& config.tcp_whitelist[1] == text::decimal(minecraft_port as nat)
            &&& config.ipv4 == Some("10.144.144.1"@)
            &&& !config.dhcp
            &&& config.no_tun == !events[n]->Served_0
            &&& !config.use_smoltcp
            &&& config.listen_random_ports
            &&& config.port_forwards.len() == 0
            &&& config.bind_ip == text::optional_text(events[n]->Served_1)
        }),
{
    start_keeps_what_was_given(states, events, actions, n);
    assert(start_step_at(states, events, actions, n));
    served_port_is_held(states, events, actions, n)
}

/// No step of the start but the one that ends it changes who is listed.
proof fn nobody_is_listed_before(
    states: Seq<CenterState>,
    events: Seq<StartEvent>,
    actions: Seq<StartAction>,
    n: int,
)
    requires
        start_run(states, events, actions),
        0 <= n < states.len(),
        forall|k: int| 0 <= k < n ==> !((#[trigger] actions[k]) is Started),
    ensures
        states[n].players == states[0].players,
    decreases n,
{
    if n > 0 {
        nobody_is_listed_before(states, events, actions, n - 1);
        assert(start_step_at(states, events, actions, n - 1));
        assert(!(actions[n - 1] is Started));
    }
}

/// When a center is started, the player who opened the room is listed, as the host and alone,
/// with the name, machine and launcher that the center was created with, and with the
/// identifier of its node.
pub proof fn host_is_the_first_player(
    room_code: Seq<char>,
    player_name: Seq<char>,
    machine_id: Seq<char>,
    vendor: Seq<char>,
    minecraft_port: u16,
    relay_nodes: Option<Seq<Seq<char>>>,
    custom_keys: Seq<Seq<char>>,
    states: Seq<CenterState>,
    events: Seq<StartEvent>,
    actions: Seq<StartAction>,
    n: int,
)
    requires
        start_run(states, events, actions),
        states[0] == created(
            room_code,
            player_name,
            machine_id,
            vendor,
            minecraft_port,
            relay_nodes,
            custom_keys,
        ),
        0 <= n < actions.len(),
        actions[n] is Started,
        forall|k: int| 0 <= k < n ==> !((#[trigger] actions[k]) is Started),
    ensures
        events[n] is Joined,
        states[n + 1].stage is Running,
        ({
            let players = states[n + 1].players;
            &&& players.len() == 1
            &&& players[0].name == player_name
            &&& players[0].machine_id == machine_id
            &&& players[0].vendor == vendor
            &&& players[0].easytier_id == text::optional_text(events[n]->Joined_0)
            &&& players[0].kind is Host
        }),
{
    start_keeps_what_was_given(states, events, actions, n);
    nobody_is_listed_before(states, events, actions, n);
    assert(start_step_at(states, events, actions, n));
}

/// A start begins with port 1025 and tries one port after the other until one is free, which is
/// served; behind 65534, where none was free, port 25000 is. The port that is served is the one
/// that the center reports.
pub proof fn ports_are_tried_in_turn(
    before: CenterState,
    event: StartEvent,
    after: CenterState,
    action: StartAction,
)
    requires
        start_stepped(before, event, after, action),
    ensures
        event is Begin ==> action == StartAction::TryPort(1025) && after.stage
            == StartStage::Scanning(1025),
        before.stage is Scanning && event is PortTried ==> {
            let tried = before.stage->Scanning_0;
            let free = event->PortTried_0;
            &&& action is TryPort <==> !free && tried < 65534
            &&& action matches StartAction::TryPort(next) ==> next == tried + 1 && after.stage
                == StartStage::Scanning(next)
            &&& action matches StartAction::Serve(port, _) ==> {
                &&& port == if free {
                    tried
                } else {
                    25000
                }
                &&& after.tcp_port == port
                &&& after.stage is Serving
            }
        },
        before.stage is Scanning && event is PortTried && !(action is TryPort) ==> (
        action is Serve <==> advertised(before.custom_keys) is Ok),
{
}

/// A start that fails says why: the network's own reason, or the first of the center's keys that
/// is a standard one or stands twice. A center whose start failed can be started again.
pub proof fn failed_start_says_why(
    before: CenterState,
    event: StartEvent,
    after: CenterState,
    action: StartAction,
)
    requires
        start_stepped(before, event, after, action),
        action is Fail,
    ensures
        after.stage is Idle,
        after.players == before.players,
        event matches StartEvent::JoinFailed(reason) ==> action->Fail_0@ == reason@,
        !(event is JoinFailed) ==> exists|i: int|
            {
                &&& 0 <= i < before.custom_keys.len()
                &&& #[trigger] conflicts_at(before.custom_keys, i)
                &&& forall|j: int| 0 <= j < i ==> !#[trigger] conflicts_at(before.custom_keys, j)
                &&& action->Fail_0@ == ErrorView::Protocol(
                    "自定义协议键冲突: "@ + before.custom_keys[i],
                )
            },
{
    if !(event is JoinFailed) {
        first_conflict_is_named(before.custom_keys);
    }
}

/// The first key that conflicts is the one that the error names.
pub proof fn first_conflict_is_named(custom: Seq<Seq<char>>)
    ensures
        advertised(custom) matches Err(error) ==> exists|i: int|
            {
                &&& 0 <= i < custom.len()
                &&& #[trigger] conflicts_at(custom, i)
                &&& forall|j: int| 0 <= j < i ==> !#[trigger] conflicts_at(custom, j)
                &&& error == ErrorView::Protocol("自定义协议键冲突: "@ + custom[i])
            },
    decreases custom.len(),
{
    if custom.len() > 0 {
        let less = custom.drop_last();
        let last = custom.len() - 1;
        first_conflict_is_named(less);
        only_conflicts_are_refused(less);
        assert forall|i: int| 0 <= i < last implies conflicts_at(less, i) == #[trigger] conflicts_at(
            custom,
            i,
        ) by {
            assert(less.take(i) =~= custom.take(i));
        }
        if advertised(less) is Err {
            let i = choose|i: int|
                {
                    &&& 0 <= i < less.len()
                    &&& #[trigger] conflicts_at(less, i)
                    &&& forall|j: int| 0 <= j < i ==> !#[trigger] conflicts_at(less, j)
                    &&& advertised(less)->Err_0 == ErrorView::Protocol(
                        "自定义协议键冲突: "@ + less[i],
                    )
                };
            assert(conflicts_at(custom, i));
            assert(custom[i] == less[i]);
        } else if advertised(custom) is Err {
            advertised_keys_are_distinct(less);
            assert(custom.take(last) =~= less);
            assert(conflicts_at(custom, last));
        }
    }
}

/// The standard keys reach the handlers that are named after them, and each of the center's own
/// keys its own handler, where the keys do not conflict.
pub proof fn keys_reach_their_handlers<H>(
    standard: StandardHandlers<H>,
    custom: Seq<(Seq<char>, H)>,
)
    requires
        advertised(keys_of(custom)) is Ok,
    ensures
        ({
            let table = tcp_server::handlers_by_key(served(standard, custom));
            &&& table.contains_pair("c:ping"@, standard.ping)
            &&& table.contains_pair("c:protocols"@, standard.protocols)
            &&& table.contains_pair("c:server_port"@, standard.server_port)
            &&& table.contains_pair("c:player_ping"@, standard.player_ping)
            &&& table.contains_pair("c:player_profiles_list"@, standard.player_profiles_list)
            &&& forall|i: int|
                0 <= i < custom.len() ==> table.contains_pair(
                    (#[trigger] custom[i]).0,
                    custom[i].1,
                )
        }),
{
    let all = served(standard, custom);
    let told = advertised(keys_of(custom))->Ok_0;
    let table = tcp_server::handlers_by_key(all);
    advertised_keys_are_distinct(keys_of(custom));
    assert forall|i: int| 0 <= i < all.len() implies table.contains_pair(
        (#[trigger] all[i]).0,
        all[i].1,
    ) by {
        told_keys_are_served(standard, custom, all[i].0);
        let place = if i < 5 { i } else { i + 1 };
        assert(told[place] == all[i].0) by {
            if i >= 5 {
                assert(told[place] == keys_of(custom)[i - 5]);
            }
        }
        assert(told.contains(all[i].0));
        assert(told[5] == NODE_ID_KEY@);
        assert(told[place] != told[5]);
    }
    assert(all[0] == ("c:ping"@, standard.ping));
    assert(all[1] == ("c:protocols"@, standard.protocols));
    assert(all[2] == ("c:server_port"@, standard.server_port));
    assert(all[3] == ("c:player_ping"@, standard.player_ping));
    assert(all[4] == ("c:player_profiles_list"@, standard.player_profiles_list));
    assert forall|i: int| 0 <= i < custom.len() implies table.contains_pair(
        (#[trigger] custom[i]).0,
        custom[i].1,
    ) by {
        assert(all[i + 5] == custom[i]);
    }
}

/// Who decides about a player: where the application does, its verdict is the answer and the
/// list stays; where it does not, the player is welcome and listed. Nothing else of the center
/// changes, and whoever is turned away is answered with status 255, whoever is not with 0.
pub proof fn verdict_is_the_answer(
    before: CenterState,
    info: PlayerView,
    verdict: Option<bool>,
    after: CenterState,
    welcome: bool,
)
    requires
        welcomed(before, info, verdict, after, welcome),
    ensures
        verdict is Some ==> welcome == verdict->0 && after.players == before.players,
        verdict is None ==> welcome && roster::has_machine(after.players, info.machine_id),
        after == (CenterState { players: after.players, ..before }),
        protocols::ping_answer(welcome).status == if welcome {
            0u8
        } else {
            255u8
        },
{
    if verdict is None {
        roster::first_with_is_first(before.players, info.machine_id, 0);
        let i = roster::first_with(before.players, info.machine_id, 0);
        assert(after.players[i].machine_id == info.machine_id);
    }
}

/// A center that starts tells each key once: the standard ones and its own.
pub proof fn advertised_keys_are_distinct(custom: Seq<Seq<char>>)
    ensures
        advertised(custom) matches Ok(keys) ==> keys == standard_keys() + custom
            && keys.no_duplicates(),
    decreases custom.len(),
{
    if custom.len() == 0 {
        reveal_strlit("c:ping");
        reveal_strlit("c:protocols");
        reveal_strlit("c:server_port");
        reveal_strlit("c:player_ping");
        reveal_strlit("c:player_profiles_list");
        reveal_strlit("c:player_easytier_id");
        let keys = standard_keys();
        assert(keys[0].len() == 6 && keys[1].len() == 11 && keys[2].len() == 13);
        assert(keys[3].len() == 13 && keys[4].len() == 22 && keys[5].len() == 20);
        assert(keys[2][2] == 's' && keys[3][2] == 'p');
        assert(keys + custom =~= keys);
    } else {
        advertised_keys_are_distinct(custom.drop_last());
        if let Ok(keys) = advertised(custom) {
            let before = advertised(custom.drop_last())->Ok_0;
            assert(keys =~= standard_keys() + custom);
            assert forall|i: int, j: int| 0 <= i < keys.len() && 0 <= j < keys.len() && i
                != j implies keys[i] != keys[j] by {
                if i == before.len() {
                    assert(before.contains(before[j]));
                } else if j == before.len() {
                    assert(before.contains(before[i]));
                } else {
                    assert(before[i] != before[j]);
                }
            }
        }
    }
}

/// A center that starts serves what it tells guests: every key that it tells has a handler, but
/// for the one that only says that node identifiers are understood, and no other key has one.
/// None of its own handlers takes the place of a standard one.
pub proof fn told_keys_are_served<H>(
    standard: StandardHandlers<H>,
    custom: Seq<(Seq<char>, H)>,
    key: Seq<char>,
)
    requires
        advertised(keys_of(custom)) is Ok,
    ensures
        ({
            let told = advertised(keys_of(custom))->Ok_0;
            let table = tcp_server::handlers_by_key(served(standard, custom));
            &&& table.contains_key(key) <==> told.contains(key) && key != NODE_ID_KEY@
            &&& forall|i: int|
                0 <= i < served(standard, custom).len() ==> table[(#[trigger] served(
                    standard,
                    custom,
                )[i]).0] == served(standard, custom)[i].1
        }),
{
    let own = keys_of(custom);
    let told = advertised(own)->Ok_0;
    let all = served(standard, custom);
    advertised_keys_are_distinct(own);
    assert(told == standard_keys() + own);
    // Where a handler's key stands among the keys that are told.
    let place = |i: int| if i < 5 {
        i
    } else {
        i + 1
    };
    assert forall|i: int| 0 <= i < all.len() implies (#[trigger] all[i]).0 == told[place(i)] by {
        if i >= 5 {
            assert(all[i] == custom[i - 5]);
            assert(told[i + 1] == own[i - 5]);
        } else {
            assert(told[i] == standard_keys()[i]);
        }
    }
    assert(told[5] == NODE_ID_KEY@);
    assert forall|i: int, j: int| 0 <= i < j < all.len() implies (#[trigger] all[i]).0 != (
    #[trigger] all[j]).0 by {
        assert(told[place(i)] != told[place(j)]);
    }
    tcp_server::distinct_handlers_are_found(all);
    let table = tcp_server::handlers_by_key(all);
    if table.contains_key(key) {
        let i = choose|i: int| 0 <= i < all.len() && (#[trigger] all[i]).0 == key;
        assert(told[place(i)] == key);
        assert(told[place(i)] != told[5]);
    }
    if told.contains(key) && key != NODE_ID_KEY@ {
        let j = choose|j: int| 0 <= j < told.len() && told[j] == key;
        let i = if j < 5 {
            j
        } else {
            j - 1
        };
        assert(place(i) == j);
        assert(all[i].0 == key);
    }
}

/// A key of the center's own that is there already keeps the center from starting, and nothing
/// else about the keys does.
pub proof fn only_conflicts_are_refused(custom: Seq<Seq<char>>)
    ensures
        advertised(custom) is Err <==> exists|i: int|
            0 <= i < custom.len() && #[trigger] conflicts_at(custom, i),
    decreases custom.len(),
{
    if custom.len() > 0 {
        let less = custom.drop_last();
        let last = custom.len() - 1;
        only_conflicts_are_refused(less);
        assert forall|i: int| 0 <= i < last implies conflicts_at(less, i) == conflicts_at(
            custom,
            i,
        ) by {
            assert(less.take(i) =~= custom.take(i));
        }
        assert(custom.take(last) =~= less);
        advertised_keys_are_distinct(less);
        if advertised(less) is Err {
            let i = choose|i: int| 0 <= i < less.len() && conflicts_at(less, i);
            assert(conflicts_at(custom, i));
        } else if advertised(custom) is Err {
            assert(conflicts_at(custom, last));
        } else {
            assert(!conflicts_at(custom, last));
            assert forall|i: int| 0 <= i < custom.len() implies !conflicts_at(custom, i) by {
                if i < last {
                    assert(!conflicts_at(less, i));
                }
            }
        }
    } else {
        assert forall|i: int| 0 <= i < custom.len() implies !conflicts_at(custom, i) by {}
    }
}

/// A guest who is not listed and sends a heartbeat is listed last, as a guest; when it is removed,
/// or its connection ends and its machine is known, the center is as it was. A connection of
/// which no machine is known takes nobody along, and the host cannot be removed.
pub proof fn guests_come_and_go(center: CenterState, info: PlayerView, i: int)
    requires
        !roster::has_machine(center.players, info.machine_id),
    ensures
        ({
            let joined = center.after_ping(info);
            &&& joined.players == center.players.push(
                PlayerView { kind: PlayerKind::Guest, ..info },
            )
            &&& joined == (CenterState { players: joined.players, ..center })
            &&& joined.after_removal(info.machine_id) == center
            &&& info.machine_id.len() > 0 ==> joined.after_connection(info.machine_id) == center
            &&& joined.after_connection(Seq::empty()) == joined
        }),
        0 <= i < center.players.len() && center.players[i].kind is Host && (forall|j: int|
            0 <= j < i ==> (#[trigger] center.players[j]).machine_id
                != center.players[i].machine_id) ==> {
            &&& center.after_removal(center.players[i].machine_id) == center
            &&& center.after_connection(center.players[i].machine_id) == center
        },
{
    roster::first_with_is_first(center.players, info.machine_id, 0);
    roster::disconnect_undoes_join(center.players, info);
    roster::unknown_connection_takes_nobody(center.after_ping(info).players, info.machine_id);
    if 0 <= i < center.players.len() && center.players[i].kind is Host && (forall|j: int|
        0 <= j < i ==> (#[trigger] center.players[j]).machine_id
            != center.players[i].machine_id) {
        roster::guest_leaves_and_host_stays(center.players, center.players[i].machine_id, i);
    }
}

} // verus!
