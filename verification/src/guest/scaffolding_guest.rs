//! A guest: how it joins a room, how it stays there, and how it reaches the game server.
use vstd::prelude::*;

use crate::center::scaffolding_center;
use crate::easytier::port_forward;
use crate::error::{ErrorView, ScaffoldingError};
use crate::guest::requests;
use crate::json;
use crate::models::network_config;
use crate::models::network_config::{ConfigView, NetworkConfig};
use crate::models::player::{EntryView, PlayerProfileEntry};
use crate::models::protocol::{ProtocolRequest, ProtocolResponse, ResponseView};
use crate::models::room_code;
use crate::models::room_code::RoomCode;
use crate::protocols;
use crate::session::center_discovery::{CenterDiscoveryResult, CenterView};
use crate::session::protocol_negotiator;
use crate::text;

verus! {

/// How long one attempt to connect may take, in seconds.
pub const CONNECT_TIMEOUT_SECS: u64 = 3;

/// How long to wait between two attempts, in seconds.
pub const RETRY_DELAY_SECS: u64 = 2;

/// How many attempts are made through a port forward.
pub const RETRIES: u32 = 10;

/// The address of this machine.
pub const LOCAL_HOST: &'static str = "127.0.0.1";

/// How many characters of its machine's identifier a guest puts into its host name.
pub const HOSTNAME_CHARS: usize = 8;

// ---------------------------------------------------------------------------------------
// The network of a guest
// ---------------------------------------------------------------------------------------
/// The first characters of a text.
pub open spec fn first_chars(s: Seq<char>, count: int) -> Seq<char> {
    if s.len() < count {
        s
    } else {
        s.take(count)
    }
}

/// How a guest joins the virtual network of a room.
pub open spec fn guest_config(
    room_code: Seq<char>,
    machine_id: Seq<char>,
    relay_nodes: Option<Seq<Seq<char>>>,
    elevated: bool,
    bind_ip: Option<Seq<char>>,
) -> ConfigView {
    ConfigView {
        network_name: "scaffolding-mc-"@ + room_code::network_part(room_code),
        network_secret: room_code::secret_half(room_code),
        hostname: "scaffolding-mc-guest-"@ + first_chars(machine_id, HOSTNAME_CHARS as int),
        no_tun: !elevated,
        use_smoltcp: !elevated,
        dhcp: true,
        relay_nodes,
        bind_ip,
        ..network_config::default_config()
    }
}

// ---------------------------------------------------------------------------------------
// The guest
// ---------------------------------------------------------------------------------------
/// How far joining a room is.
#[derive(Debug, Clone, Copy, PartialEq, Eq, Structural)]
pub enum JoinStage {
    /// Not under way.
    Idle,
    /// Waits for the virtual network.
    Starting,
    /// Waits for the center to be found.
    Discovering,
    /// Waits for the attempt to reach the center directly.
    Direct,
    /// Waits for a free port of this machine.
    Searching,
    /// Waits for the port forward from this port.
    Forwarding(u16),
    /// Waits for an attempt through the port forward from this port; which one it is.
    Retrying(u16, u32),
    /// Waits between two attempts; which one was made.
    Pausing(u16, u32),
    /// Joined.
    Joined,
}

/// What happened while joining a room.
pub enum JoinEvent {
    /// The room is to be joined. Its code, whether the process has elevated rights, and the
    /// address to bind to.
    Begin(RoomCode, bool, Option<String>),
    /// The virtual network is joined.
    NetworkUp,
    /// The virtual network could not be joined, or the center was not found, or the port
    /// forward could not be added.
    Failed(ScaffoldingError),
    /// The center was found.
    CenterFound(CenterDiscoveryResult),
    /// Whether an attempt to reach the center succeeded.
    Tried(bool),
    /// A free port of this machine.
    LocalPort(u16),
    /// The port forward was added. Whether joining was cancelled in the meantime.
    ForwardAdded(bool),
    /// The pause between two attempts is over. Whether joining was cancelled in the meantime.
    Paused(bool),
}

/// What to do next to join a room.
pub enum JoinAction {
    /// Join the virtual network.
    StartNetwork(NetworkConfig),
    /// Search for the center.
    Discover,
    /// Try to reach the center at this address and port.
    Try(String, u16),
    /// Find a free port of this machine.
    FindPort,
    /// Add this port forward.
    AddForward(String),
    /// Wait for [`RETRY_DELAY_SECS`].
    Pause,
    /// Start sending heartbeats; the room is joined.
    Joined,
    /// Joining failed.
    Fail(ScaffoldingError),
    /// Nothing: the event does not fit the stage.
    Ignore,
}

/// How far finding out the address of the game server is.
#[derive(Debug, Clone, Copy, PartialEq, Eq, Structural)]
pub enum MapStage {
    /// Not under way.
    Idle,
    /// Waits for the game server's port.
    Asking,
    /// Waits for a free port of this machine, to be forwarded to the game server's port.
    Searching(u16),
    /// Waits for the port forward from this port to the game server's port.
    Forwarding(u16, u16),
}

/// What happened while finding out the address of the game server.
pub enum MapEvent {
    /// The address is wanted.
    Begin,
    /// The center answered, or could not be asked.
    Answered(Result<ProtocolResponse, ScaffoldingError>),
    /// A free port of this machine.
    LocalPort(u16),
    /// The port forward was added.
    ForwardAdded,
    /// The port forward could not be added.
    ForwardFailed(ScaffoldingError),
}

/// What to do next to find out the address of the game server.
pub enum MapAction {
    /// Send this request to the center.
    Ask(ProtocolRequest),
    /// Find a free port of this machine.
    FindPort,
    /// Add this port forward.
    AddForward(String),
    /// The game server can be reached at this address and port.
    Mapped(String, u16),
    /// The address could not be found out.
    Fail(ScaffoldingError),
    /// Nothing: the event does not fit the stage.
    Ignore,
}

/// What happened in one attempt to reach the center.
pub enum AttemptEvent {
    /// Whether the connection was made in time.
    Connected(bool),
    /// The center answered the introduction, or did not.
    Introduced(Option<ProtocolResponse>),
    /// The center answered with its keys, or did not.
    Negotiated(Option<ProtocolResponse>),
}

/// What to do next in an attempt to reach the center.
pub enum AttemptAction {
    /// Send this introduction.
    Introduce(ProtocolRequest),
    /// Send this request for the center's keys.
    Negotiate(ProtocolRequest),
    /// The attempt succeeded.
    Succeed,
    /// Disconnect; the attempt failed.
    GiveUp,
}

/// What to do when a heartbeat is due.
pub enum HeartbeatStep {
    /// Report that the connection is lost; the heartbeat counts as sent.
    ReportLost,
    /// Send this request.
    Send(ProtocolRequest),
}

/// A guest.
#[derive(Debug)]
pub struct ScaffoldingGuest {
    player_name: String,
    machine_id: String,
    vendor: String,
    custom_keys: Vec<String>,
    relay_nodes: Option<Vec<String>>,
    negotiated: Vec<String>,
    center: Option<CenterDiscoveryResult>,
    forwards: Vec<String>,
    use_port_forward: bool,
    minecraft: Option<(String, u16)>,
    join_stage: JoinStage,
    map_stage: MapStage,
}

/// What a guest holds.
#[verifier::ext_equal]
pub struct GuestState {
    pub player_name: Seq<char>,
    pub machine_id: Seq<char>,
    pub vendor: Seq<char>,
    /// The keys of the application's own protocols.
    pub custom_keys: Seq<Seq<char>>,
    pub relay_nodes: Option<Seq<Seq<char>>>,
    /// The keys that the guest and the center have in common.
    pub negotiated: Seq<Seq<char>>,
    /// The center, once it was found.
    pub center: Option<CenterView>,
    /// The port forwards that were added.
    pub forwards: Seq<Seq<char>>,
    /// Whether the center is reached through a port forward.
    pub use_port_forward: bool,
    /// The address and port of the game server, once they are known.
    pub minecraft: Option<(Seq<char>, u16)>,
    pub join_stage: JoinStage,
    pub map_stage: MapStage,
}

/// The address and port of the game server.
pub open spec fn server_view(server: Option<(String, u16)>) -> Option<(Seq<char>, u16)> {
    match server {
        Some((host, port)) => Some((host@, port)),
        None => None,
    }
}

/// Where a center that may not have been found can be reached.
pub open spec fn optional_center(center: Option<CenterDiscoveryResult>) -> Option<CenterView> {
    match center {
        Some(c) => Some(c@),
        None => None,
    }
}

impl View for ScaffoldingGuest {
    type V = GuestState;

    closed spec fn view(&self) -> GuestState {
        GuestState {
            player_name: self.player_name@,
            machine_id: self.machine_id@,
            vendor: self.vendor@,
            custom_keys: text::texts(self.custom_keys@),
            relay_nodes: scaffolding_center::optional_texts(self.relay_nodes),
            negotiated: text::texts(self.negotiated@),
            center: optional_center(self.center),
            forwards: text::texts(self.forwards@),
            use_port_forward: self.use_port_forward,
            minecraft: server_view(self.minecraft),
            join_stage: self.join_stage,
            map_stage: self.map_stage,
        }
    }
}

/// The error for a center that cannot be reached through a port forward.
pub open spec fn unreachable_center() -> ErrorView {
    ErrorView::CenterConnection("无法连接到联机中心（端口转发建立失败）"@)
}

/// The error for a guest that asks for the game server before it found a center.
pub open spec fn not_in_a_room() -> ErrorView {
    ErrorView::CenterConnection("尚未加入房间"@)
}

/// What follows an event while a guest joins a room: the guest after it, and what to do.
pub open spec fn join_stepped(
    before: GuestState,
    event: JoinEvent,
    after: GuestState,
    action: JoinAction,
) -> bool {
    match (before.join_stage, event) {
        (_, JoinEvent::Begin(code, elevated, bind_ip)) => {
            &&& after == (GuestState { join_stage: JoinStage::Starting, ..before })
            &&& action matches JoinAction::StartNetwork(config) && config@ == guest_config(
                code@,
                before.machine_id,
                before.relay_nodes,
                elevated,
                text::optional_text(bind_ip),
            )
        },
        (JoinStage::Starting, JoinEvent::NetworkUp) => {
            &&& after == (GuestState { join_stage: JoinStage::Discovering, ..before })
            &&& action is Discover
        },
        (JoinStage::Discovering, JoinEvent::CenterFound(center)) => {
            &&& after == (GuestState {
                join_stage: JoinStage::Direct,
                center: Some(center@),
                forwards: Seq::empty(),
                ..before
            })
            &&& action matches JoinAction::Try(host, port) && host@ == center@.virtual_ip && port
                == center@.port
        },
        (JoinStage::Direct, JoinEvent::Tried(reached)) => if reached {
            &&& after == (GuestState {
                join_stage: JoinStage::Joined,
                use_port_forward: false,
                ..before
            })
            &&& action is Joined
        } else {
            &&& after == (GuestState { join_stage: JoinStage::Searching, ..before })
            &&& action is FindPort
        },
        (JoinStage::Searching, JoinEvent::LocalPort(local)) => match before.center {
            Some(center) => {
                &&& after == (GuestState { join_stage: JoinStage::Forwarding(local), ..before })
                &&& action matches JoinAction::AddForward(forward) && forward@
                    == port_forward::forward_text(local, center.virtual_ip, center.port)
            },
            None => after == before && action is Ignore,
        },
        (JoinStage::Forwarding(local), JoinEvent::ForwardAdded(cancelled)) => match before.center {
            Some(center) => {
                let forward = port_forward::forward_text(local, center.virtual_ip, center.port);
                if cancelled {
                    &&& after == (GuestState {
                        join_stage: JoinStage::Idle,
                        forwards: before.forwards.push(forward),
                        ..before
                    })
                    &&& action matches JoinAction::Fail(error) && error@ == unreachable_center()
                } else {
                    &&& after == (GuestState {
                        join_stage: JoinStage::Retrying(local, 1),
                        forwards: before.forwards.push(forward),
                        ..before
                    })
                    &&& action matches JoinAction::Try(host, port) && host@ == LOCAL_HOST@ && port
                        == local
                }
            },
            None => after == before && action is Ignore,
        },
        (JoinStage::Retrying(local, attempt), JoinEvent::Tried(reached)) => if reached {
            &&& after == (GuestState {
                join_stage: JoinStage::Joined,
                use_port_forward: true,
                ..before
            })
            &&& action is Joined
        } else if attempt < RETRIES {
            &&& after == (GuestState { join_stage: JoinStage::Pausing(local, attempt), ..before })
            &&& action is Pause
        } else {
            &&& after == (GuestState { join_stage: JoinStage::Idle, ..before })
            &&& action matches JoinAction::Fail(error) && error@ == unreachable_center()
        },
        (JoinStage::Pausing(local, attempt), JoinEvent::Paused(cancelled)) => if cancelled
            || attempt >= RETRIES {
            &&& after == (GuestState { join_stage: JoinStage::Idle, ..before })
            &&& action matches JoinAction::Fail(error) && error@ == unreachable_center()
        } else {
            &&& after == (GuestState {
                join_stage: JoinStage::Retrying(local, (attempt + 1) as u32),
                ..before
            })
            &&& action matches JoinAction::Try(host, port) && host@ == LOCAL_HOST@ && port == local
        },
        (stage, JoinEvent::Failed(reason)) => if fails_with_reason(stage) {
            &&& after == (GuestState { join_stage: JoinStage::Idle, ..before })
            &&& action matches JoinAction::Fail(error) && error@ == reason@
        } else {
            after == before && action is Ignore
        },
        _ => after == before && action is Ignore,
    }
}

/// Whether what the guest waits for can fail with an error of its own.
pub open spec fn fails_with_reason(stage: JoinStage) -> bool {
    match stage {
        JoinStage::Starting => true,
        JoinStage::Discovering => true,
        JoinStage::Forwarding(_) => true,
        _ => false,
    }
}

/// What follows an event while a guest finds out the address of the game server: the guest
/// after it, and what to do.
pub open spec fn map_stepped(
    before: GuestState,
    event: MapEvent,
    after: GuestState,
    action: MapAction,
) -> bool {
    match (before.map_stage, event) {
        (_, MapEvent::Begin) => if before.center is None {
            &&& after == (GuestState { map_stage: MapStage::Idle, ..before })
            &&& action matches MapAction::Fail(error) && error@ == not_in_a_room()
        } else if let Some((known_host, known_port)) = before.minecraft {
            &&& after == (GuestState { map_stage: MapStage::Idle, ..before })
            &&& action matches MapAction::Mapped(host, port) && host@ == known_host && port
                == known_port
        } else {
            &&& after == (GuestState { map_stage: MapStage::Asking, ..before })
            &&& action matches MapAction::Ask(request) && request@ == requests::port_asked()
        },
        (MapStage::Asking, MapEvent::Answered(answer)) => match answer {
            Err(reason) => {
                &&& after == (GuestState { map_stage: MapStage::Idle, ..before })
                &&& action matches MapAction::Fail(error) && error@ == reason@
            },
            Ok(response) => match (requests::server_port_in(response@), before.center) {
                (Err(reason), _) => {
                    &&& after == (GuestState { map_stage: MapStage::Idle, ..before })
                    &&& action matches MapAction::Fail(error) && error@ == reason
                },
                (Ok(_), None) => {
                    &&& after == (GuestState { map_stage: MapStage::Idle, ..before })
                    &&& action matches MapAction::Fail(error) && error@ == not_in_a_room()
                },
                (Ok(port), Some(center)) => if before.use_port_forward {
                    &&& after == (GuestState { map_stage: MapStage::Searching(port), ..before })
                    &&& action is FindPort
                } else {
                    &&& after == (GuestState {
                        map_stage: MapStage::Idle,
                        minecraft: Some((center.virtual_ip, port)),
                        ..before
                    })
                    &&& action matches MapAction::Mapped(host, mapped) && host@
                        == center.virtual_ip && mapped == port
                },
            },
        },
        (MapStage::Searching(port), MapEvent::LocalPort(local)) => match before.center {
            Some(center) => {
                &&& after == (GuestState { map_stage: MapStage::Forwarding(local, port), ..before })
                &&& action matches MapAction::AddForward(forward) && forward@
                    == port_forward::forward_text(local, center.virtual_ip, port)
            },
            None => after == before && action is Ignore,
        },
        (MapStage::Forwarding(local, port), MapEvent::ForwardAdded) => match before.center {
            Some(center) => {
                &&& after == (GuestState {
                    map_stage: MapStage::Idle,
                    forwards: before.forwards.push(
                        port_forward::forward_text(local, center.virtual_ip, port),
                    ),
                    minecraft: Some((LOCAL_HOST@, local)),
                    ..before
                })
                &&& action matches MapAction::Mapped(host, mapped) && host@ == LOCAL_HOST@
                    && mapped == local
            },
            None => after == before && action is Ignore,
        },
        (MapStage::Forwarding(_, _), MapEvent::ForwardFailed(reason)) => {
            &&& after == (GuestState { map_stage: MapStage::Idle, ..before })
            &&& action matches MapAction::Fail(error) && error@ == reason@
        },
        _ => after == before && action is Ignore,
    }
}

/// The keys that a guest and a center have in common after the center's answer; an answer that
/// reports no success changes nothing.
pub open spec fn negotiated_after(
    negotiated: Seq<Seq<char>>,
    custom: Seq<Seq<char>>,
    response: ResponseView,
) -> Seq<Seq<char>> {
    if response.status == 0 {
        protocol_negotiator::common_keys(
            requests::known_keys(custom),
            requests::keys_in(response.body),
        )
    } else {
        negotiated
    }
}

impl GuestState {
    /// How the guest describes itself.
    pub open spec fn entry(self, node_id: Option<Seq<char>>) -> EntryView {
        requests::guest_entry(
            self.player_name,
            self.machine_id,
            self.vendor,
            self.negotiated,
            node_id,
        )
    }
}

/// A guest that is in no room.
pub open spec fn new_guest(
    player_name: Seq<char>,
    machine_id: Seq<char>,
    vendor: Seq<char>,
    custom_keys: Seq<Seq<char>>,
    relay_nodes: Option<Seq<Seq<char>>>,
) -> GuestState {
    GuestState {
        player_name,
        machine_id,
        vendor,
        custom_keys,
        relay_nodes,
        negotiated: Seq::empty(),
        center: None,
        forwards: Seq::empty(),
        use_port_forward: false,
        minecraft: None,
        join_stage: JoinStage::Idle,
        map_stage: MapStage::Idle,
    }
}

/// What follows an event in one attempt to reach the center: the guest after it, and what to
/// do.
pub open spec fn attempt_stepped(
    before: GuestState,
    event: AttemptEvent,
    node_id: Option<Seq<char>>,
    after: GuestState,
    action: AttemptAction,
) -> bool {
    match event {
        AttemptEvent::Connected(connected) => {
            &&& after == before
            &&& if connected {
                let members = protocols::entry_members(before.entry(node_id));
                action matches AttemptAction::Introduce(request) && request@
                    == requests::standard_request(
                    "player_ping"@,
                    json::object_written(members),
                ) && json::json_parsed(request@.body) == json::parsed_as(json::object_of(members))
            } else {
                action is GiveUp
            }
        },
        AttemptEvent::Introduced(answer) => {
            &&& after == before
            &&& if answer is Some {
                action matches AttemptAction::Negotiate(request) && request@
                    == requests::keys_asked(requests::known_keys(before.custom_keys))
            } else {
                action is GiveUp
            }
        },
        AttemptEvent::Negotiated(answer) => match answer {
            Some(response) => {
                &&& action is Succeed
                &&& after == (GuestState {
                    negotiated: negotiated_after(
                        before.negotiated,
                        before.custom_keys,
                        response@,
                    ),
                    ..before
                })
            },
            None => action is GiveUp && after == before,
        },
    }
}

/// What to do when a heartbeat is due.
pub open spec fn heartbeat_due(
    guest: GuestState,
    connected: bool,
    node_id: Option<Seq<char>>,
    step: HeartbeatStep,
) -> bool {
    if connected {
        let members = requests::heartbeat_members(guest.entry(node_id));
        step matches HeartbeatStep::Send(request) && request@ == requests::standard_request(
            "player_ping"@,
            json::object_written(members),
        ) && json::json_parsed(request@.body) == json::parsed_as(json::object_of(members))
    } else {
        step is ReportLost
    }
}

impl ScaffoldingGuest {
    /// A guest that is in no room.
    pub fn new(
        player_name: String,
        machine_id: String,
        vendor: String,
        custom_keys: Vec<String>,
        relay_nodes: Option<Vec<String>>,
    ) -> (guest: Self)
        ensures
            guest@ == new_guest(
                player_name@,
                machine_id@,
                vendor@,
                text::texts(custom_keys@),
                scaffolding_center::optional_texts(relay_nodes),
            ),
    {
        let guest = ScaffoldingGuest {
            player_name,
            machine_id,
            vendor,
            custom_keys,
            relay_nodes,
            negotiated: Vec::new(),
            center: None,
            forwards: Vec::new(),
            use_port_forward: false,
            minecraft: None,
            join_stage: JoinStage::Idle,
            map_stage: MapStage::Idle,
        };
        assert(guest@.negotiated =~= Seq::empty());
        assert(guest@.forwards =~= Seq::empty());
        guest
    }

    /// The keys that the guest and the center have in common.
    pub fn negotiated_protocols(&self) -> (keys: Vec<String>)
        ensures
            text::texts(keys@) == self@.negotiated,
    {
        text::copy_texts(self.negotiated.as_slice())
    }

    /// The address of the game server, once it is known.
    pub fn minecraft_host(&self) -> (host: Option<String>)
        ensures
            text::optional_text(host) == (match self@.minecraft {
                Some((h, _)) => Some(h),
                None => None,
            }),
    {
        match &self.minecraft {
            Some((host, _)) => Some(host.clone()),
            None => None,
        }
    }

    /// The port of the game server, once it is known.
    pub fn minecraft_port(&self) -> (port: Option<u16>)
        ensures
            port == (match self@.minecraft {
                Some((_, p)) => Some(p),
                None => None,
            }),
    {
        match &self.minecraft {
            Some((_, port)) => Some(*port),
            None => None,
        }
    }

    fn network_config(&self, code: &RoomCode, elevated: bool, bind_ip: Option<String>) -> (config:
        NetworkConfig)
        ensures
            config@ == guest_config(
                code@,
                self@.machine_id,
                self@.relay_nodes,
                elevated,
                text::optional_text(bind_ip),
            ),
    {
        let chars = text::chars_of(self.machine_id.as_str());
        let count: usize = if chars.len() < HOSTNAME_CHARS {
            chars.len()
        } else {
            HOSTNAME_CHARS
        };
        let suffix = text::string_between(&chars, 0, count);
        assert(suffix@ =~= first_chars(self.machine_id@, HOSTNAME_CHARS as int));
        let config = NetworkConfig {
            network_name: code.easy_tier_network_name(),
            network_secret: code.easy_tier_network_secret().to_owned(),
            hostname: text::concat("scaffolding-mc-guest-", suffix.as_str()),
            no_tun: !elevated,
            use_smoltcp: !elevated,
            dhcp: true,
            ipv4: None,
            listen_random_ports: true,
            tcp_whitelist: Vec::new(),
            port_forwards: Vec::new(),
            relay_nodes: scaffolding_center::copy_list(&self.relay_nodes),
            bind_ip,
        };
        assert(config@ =~~= guest_config(
            code@,
            self@.machine_id,
            self@.relay_nodes,
            elevated,
            text::optional_text(bind_ip),
        ));
        config
    }

    fn note_forward(&mut self, forward: String)
        ensures
            final(self)@ == (GuestState {
                forwards: old(self)@.forwards.push(forward@),
                ..old(self)@
            }),
    {
        self.forwards.push(forward);
        assert(self@.forwards =~= old(self)@.forwards.push(forward@));
    }

    /// What follows an event while the guest joins a room: the virtual network is joined, the
    /// center is searched and tried directly, and where it cannot be reached so, through a port
    /// forward, several times.
    pub fn step_join(&mut self, event: JoinEvent) -> (action: JoinAction)
        ensures
            join_stepped(old(self)@, event, final(self)@, action),
    {
        match (self.join_stage, event) {
            (_, JoinEvent::Begin(code, elevated, bind_ip)) => {
                let config = self.network_config(&code, elevated, bind_ip);
                self.join_stage = JoinStage::Starting;
                JoinAction::StartNetwork(config)
            },
            (JoinStage::Starting, JoinEvent::NetworkUp) => {
                self.join_stage = JoinStage::Discovering;
                JoinAction::Discover
            },
            (JoinStage::Discovering, JoinEvent::CenterFound(center)) => {
                let host = center.virtual_ip.clone();
                let port: u16 = center.port;
                self.center = Some(center);
                self.forwards = Vec::new();
                self.join_stage = JoinStage::Direct;
                assert(self@.forwards =~= Seq::empty());
                JoinAction::Try(host, port)
            },
            (JoinStage::Direct, JoinEvent::Tried(reached)) => if reached {
                self.use_port_forward = false;
                self.join_stage = JoinStage::Joined;
                JoinAction::Joined
            } else {
                self.join_stage = JoinStage::Searching;
                JoinAction::FindPort
            },
            (JoinStage::Searching, JoinEvent::LocalPort(local)) => match &self.center {
                Some(center) => {
                    let forward = port_forward::forward_to(
                        local,
                        center.virtual_ip.as_str(),
                        center.port,
                    );
                    self.join_stage = JoinStage::Forwarding(local);
                    JoinAction::AddForward(forward)
                },
                None => JoinAction::Ignore,
            },
            (JoinStage::Forwarding(local), JoinEvent::ForwardAdded(cancelled)) => {
                let forward = match &self.center {
                    Some(center) => port_forward::forward_to(
                        local,
                        center.virtual_ip.as_str(),
                        center.port,
                    ),
                    None => return JoinAction::Ignore,
                };
                self.note_forward(forward);
                if cancelled {
                    self.join_stage = JoinStage::Idle;
                    JoinAction::Fail(Self::unreachable_error())
                } else {
                    self.join_stage = JoinStage::Retrying(local, 1);
                    JoinAction::Try(LOCAL_HOST.to_owned(), local)
                }
            },
            (JoinStage::Retrying(local, attempt), JoinEvent::Tried(reached)) => if reached {
                self.use_port_forward = true;
                self.join_stage = JoinStage::Joined;
                JoinAction::Joined
            } else if attempt < RETRIES {
                self.join_stage = JoinStage::Pausing(local, attempt);
                JoinAction::Pause
            } else {
                self.join_stage = JoinStage::Idle;
                JoinAction::Fail(Self::unreachable_error())
            },
            (JoinStage::Pausing(local, attempt), JoinEvent::Paused(cancelled)) => if cancelled
                || attempt >= RETRIES {
                self.join_stage = JoinStage::Idle;
                JoinAction::Fail(Self::unreachable_error())
            } else {
                self.join_stage = JoinStage::Retrying(local, attempt + 1);
                JoinAction::Try(LOCAL_HOST.to_owned(), local)
            },
            (stage, JoinEvent::Failed(error)) => {
                let fails = match stage {
                    JoinStage::Starting => true,
                    JoinStage::Discovering => true,
                    JoinStage::Forwarding(_) => true,
                    _ => false,
                };
                if fails {
                    self.join_stage = JoinStage::Idle;
                    JoinAction::Fail(error)
                } else {
                    JoinAction::Ignore
                }
            },
            _ => JoinAction::Ignore,
        }
    }

    fn unreachable_error() -> (error: ScaffoldingError)
        ensures
            error@ == unreachable_center(),
    {
        ScaffoldingError::CenterConnection("无法连接到联机中心（端口转发建立失败）".to_owned())
    }

    fn no_room_error() -> (error: ScaffoldingError)
        ensures
            error@ == not_in_a_room(),
    {
        ScaffoldingError::CenterConnection("尚未加入房间".to_owned())
    }

    /// What follows an event in one attempt to reach the center: connect, introduce the guest,
    /// negotiate the protocols. Any answer to the introduction will do; without an answer the
    /// attempt is given up.
    pub fn step_attempt(&mut self, event: AttemptEvent, node_id: Option<String>) -> (action:
        AttemptAction)
        ensures
            attempt_stepped(
                old(self)@,
                event,
                text::optional_text(node_id),
                final(self)@,
                action,
            ),
    {
        match event {
            AttemptEvent::Connected(connected) => if connected {
                let entry = self.describe(node_id);
                AttemptAction::Introduce(requests::player_ping_request(entry))
            } else {
                AttemptAction::GiveUp
            },
            AttemptEvent::Introduced(answer) => if answer.is_some() {
                let keys = requests::known_key_list(&self.custom_keys);
                AttemptAction::Negotiate(requests::protocols_request(&keys))
            } else {
                AttemptAction::GiveUp
            },
            AttemptEvent::Negotiated(answer) => match answer {
                Some(response) => {
                    if response.is_success() {
                        let mine = requests::known_key_list(&self.custom_keys);
                        let theirs = requests::center_keys(response.body.as_slice());
                        self.negotiated = protocol_negotiator::negotiate(
                            mine.as_slice(),
                            theirs.as_slice(),
                        );
                    }
                    AttemptAction::Succeed
                },
                None => AttemptAction::GiveUp,
            },
        }
    }

    fn describe(&self, node_id: Option<String>) -> (entry: PlayerProfileEntry)
        ensures
            entry@ == self@.entry(text::optional_text(node_id)),
    {
        requests::describe_guest(
            self.player_name.as_str(),
            self.machine_id.as_str(),
            self.vendor.as_str(),
            &self.negotiated,
            node_id,
        )
    }

    /// What to do when a heartbeat is due: without a connection its loss is reported.
    pub fn heartbeat(&self, connected: bool, node_id: Option<String>) -> (step: HeartbeatStep)
        ensures
            heartbeat_due(self@, connected, text::optional_text(node_id), step),
    {
        if connected {
            let entry = self.describe(node_id);
            HeartbeatStep::Send(requests::heartbeat_request(entry))
        } else {
            HeartbeatStep::ReportLost
        }
    }

    /// What follows an event while the guest finds out the address of the game server. Once it
    /// is known, it is returned without asking again.
    pub fn step_map(&mut self, event: MapEvent) -> (action: MapAction)
        ensures
            map_stepped(old(self)@, event, final(self)@, action),
    {
        match (self.map_stage, event) {
            (_, MapEvent::Begin) => {
                self.map_stage = MapStage::Idle;
                if self.center.is_none() {
                    return MapAction::Fail(Self::no_room_error());
                }
                if let Some((host, port)) = &self.minecraft {
                    return MapAction::Mapped(host.clone(), *port);
                }
                self.map_stage = MapStage::Asking;
                MapAction::Ask(requests::server_port_request())
            },
            (MapStage::Asking, MapEvent::Answered(answer)) => {
                self.map_stage = MapStage::Idle;
                let response = match answer {
                    Ok(response) => response,
                    Err(error) => return MapAction::Fail(error),
                };
                let port: u16 = match requests::server_port_from(&response) {
                    Ok(port) => port,
                    Err(error) => return MapAction::Fail(error),
                };
                let host = match &self.center {
                    Some(center) => center.virtual_ip.clone(),
                    None => return MapAction::Fail(Self::no_room_error()),
                };
                if self.use_port_forward {
                    self.map_stage = MapStage::Searching(port);
                    MapAction::FindPort
                } else {
                    self.minecraft = Some((host.clone(), port));
                    MapAction::Mapped(host, port)
                }
            },
            (MapStage::Searching(port), MapEvent::LocalPort(local)) => match &self.center {
                Some(center) => {
                    let forward = port_forward::forward_to(local, center.virtual_ip.as_str(), port);
                    self.map_stage = MapStage::Forwarding(local, port);
                    MapAction::AddForward(forward)
                },
                None => MapAction::Ignore,
            },
            (MapStage::Forwarding(local, port), MapEvent::ForwardAdded) => {
                let forward = match &self.center {
                    Some(center) => port_forward::forward_to(local, center.virtual_ip.as_str(), port),
                    None => return MapAction::Ignore,
                };
                self.note_forward(forward);
                self.minecraft = Some((LOCAL_HOST.to_owned(), local));
                self.map_stage = MapStage::Idle;
                MapAction::Mapped(LOCAL_HOST.to_owned(), local)
            },
            (MapStage::Forwarding(_, _), MapEvent::ForwardFailed(error)) => {
                self.map_stage = MapStage::Idle;
                MapAction::Fail(error)
            },
            _ => MapAction::Ignore,
        }
    }
}

// ---------------------------------------------------------------------------------------
// Laws
// ---------------------------------------------------------------------------------------
/// Once the address of the game server was found out, asking again yields the same address at
/// once and changes nothing.
pub proof fn mapping_is_idempotent(
    before: GuestState,
    event: MapEvent,
    mapped: GuestState,
    first: MapAction,
    after: GuestState,
    second: MapAction,
)
    requires
        before.center is Some,
        map_stepped(before, event, mapped, first),
        first is Mapped,
        map_stepped(mapped, MapEvent::Begin, after, second),
    ensures
        after == mapped,
        second matches MapAction::Mapped(host, port) && host@ == first->Mapped_0@ && port
            == first->Mapped_1,
{
}

/// A guest tells the center its node's identifier after the negotiation exactly where the
/// center's keys hold `c:player_easytier_id`. None of the keys may hold a zero character.
pub proof fn node_is_told_where_negotiated(
    guest: GuestState,
    center_keys: Seq<Seq<char>>,
    node_id: Option<Seq<char>>,
)
    requires
        center_keys.len() > 0,
        forall|i: int| 0 <= i < center_keys.len() ==> !(#[trigger] center_keys[i]).contains('\0'),
    ensures
        ({
            let answer = protocols::success(
                vstd::utf8::encode_utf8(text::join(center_keys, '\0')),
            );
            let after = GuestState {
                negotiated: negotiated_after(guest.negotiated, guest.custom_keys, answer),
                ..guest
            };
            after.entry(node_id).easytier_id == if center_keys.contains("c:player_easytier_id"@) {
                match node_id {
                    Some(id) => Some(id),
                    None => Some(Seq::empty()),
                }
            } else {
                None
            }
        }),
{
    let mine = requests::known_keys(guest.custom_keys);
    requests::keys_are_read_back(center_keys);
    protocol_negotiator::negotiated_is_intersection(mine, center_keys, "c:player_easytier_id"@);
    assert(mine[5] == "c:player_easytier_id"@);
}

/// How many attempts to reach the center are still to be made through a port forward.
pub open spec fn attempts_left(stage: JoinStage) -> int {
    match stage {
        JoinStage::Forwarding(_) => RETRIES as int,
        JoinStage::Retrying(_, attempt) => RETRIES - attempt,
        JoinStage::Pausing(_, attempt) => RETRIES - attempt,
        _ => 0,
    }
}

/// Every attempt through a port forward uses one of those that are left, and none is made when
/// none is left: joining ends.
pub proof fn attempts_are_bounded(
    before: GuestState,
    event: JoinEvent,
    after: GuestState,
    action: JoinAction,
)
    requires
        join_stepped(before, event, after, action),
        before.join_stage is Forwarding || before.join_stage is Pausing,
        before.center is Some,
        action is Try,
    ensures
        attempts_left(after.join_stage) == attempts_left(before.join_stage) - 1,
        attempts_left(after.join_stage) >= 0,
{
}

/// A guest that joined knows where the center is, and whether it is reached directly.
pub proof fn joined_guest_knows_the_center(
    before: GuestState,
    event: JoinEvent,
    after: GuestState,
    action: JoinAction,
)
    requires
        join_stepped(before, event, after, action),
        action is Joined,
    ensures
        after.join_stage is Joined,
        after.center == before.center,
        after.use_port_forward == !(before.join_stage is Direct),
{
}

// ---------------------------------------------------------------------------------------
// Laws on what a guest does over time
// ---------------------------------------------------------------------------------------
/// One step of a guest: what happened, and what it did.
pub enum GuestMove {
    /// While it joined a room.
    Join(JoinEvent, JoinAction),
    /// While it found out the address of the game server.
    Ask(MapEvent, MapAction),
    /// In an attempt to reach the center, with the identifier of its node.
    Attempt(AttemptEvent, Option<Seq<char>>, AttemptAction),
}

/// Whether a step leads from a guest to a guest.
pub open spec fn guest_moved(before: GuestState, step: GuestMove, after: GuestState) -> bool {
    match step {
        GuestMove::Join(event, action) => join_stepped(before, event, after, action),
        GuestMove::Ask(event, action) => map_stepped(before, event, after, action),
        GuestMove::Attempt(event, node_id, action) => attempt_stepped(
            before,
            event,
            node_id,
            after,
            action,
        ),
    }
}

/// Whether the step with a number leads from its state to the next one.
pub open spec fn move_at(states: Seq<GuestState>, moves: Seq<GuestMove>, i: int) -> bool {
    guest_moved(states[i], moves[i], states[i + 1])
}

/// Whether states and steps are those of a guest, step by step.
pub open spec fn guest_run(states: Seq<GuestState>, moves: Seq<GuestMove>) -> bool {
    &&& states.len() == moves.len() + 1
    &&& forall|i: int| 0 <= i < moves.len() ==> #[trigger] move_at(states, moves, i)
}

/// Whether a center is found in a step, and tried.
pub open spec fn finds_center(step: GuestMove) -> bool {
    step matches GuestMove::Join(event, action) && event is CenterFound && action is Try
}

/// Whether a room is joined in a step.
pub open spec fn joins(step: GuestMove) -> bool {
    step matches GuestMove::Join(_, action) && action is Joined
}

/// Whether none of the steps between two numbers finds a center.
pub open spec fn finds_none(moves: Seq<GuestMove>, from: int, to: int) -> bool {
    forall|k: int| from <= k < to ==> !finds_center(#[trigger] moves[k])
}

/// Whether none of the steps between two numbers joins a room.
pub open spec fn joins_none(moves: Seq<GuestMove>, from: int, to: int) -> bool {
    forall|k: int| from <= k < to ==> !joins(#[trigger] moves[k])
}

/// No step changes what a guest was created with.
pub proof fn guest_keeps_what_was_given(states: Seq<GuestState>, moves: Seq<GuestMove>, n: int)
    requires
        guest_run(states, moves),
        0 <= n < states.len(),
    ensures
        states[n].player_name == states[0].player_name,
        states[n].machine_id == states[0].machine_id,
        states[n].vendor == states[0].vendor,
        states[n].custom_keys == states[0].custom_keys,
        states[n].relay_nodes == states[0].relay_nodes,
    decreases n,
{
    if n > 0 {
        guest_keeps_what_was_given(states, moves, n - 1);
        assert(move_at(states, moves, n - 1));
    }
}

/// The center that a guest knows is the one that was found last.
proof fn center_stays(states: Seq<GuestState>, moves: Seq<GuestMove>, from: int, to: int)
    requires
        guest_run(states, moves),
        0 <= from <= to < states.len(),
        finds_none(moves, from, to),
    ensures
        states[to].center == states[from].center,
    decreases to - from,
{
    if from < to {
        center_stays(states, moves, from, to - 1);
        assert(move_at(states, moves, to - 1));
        assert(!finds_center(moves[to - 1]));
    }
}

/// How the center is reached stays until a room is joined again.
proof fn way_stays(states: Seq<GuestState>, moves: Seq<GuestMove>, from: int, to: int)
    requires
        guest_run(states, moves),
        0 <= from <= to < states.len(),
        joins_none(moves, from, to),
    ensures
        states[to].use_port_forward == states[from].use_port_forward,
    decreases to - from,
{
    if from < to {
        way_stays(states, moves, from, to - 1);
        assert(move_at(states, moves, to - 1));
        assert(!joins(moves[to - 1]));
    }
}

/// The configuration that a guest joins the network with is that of the room whose code it was
/// given: the network's name and secret are the two halves of the code, the relay nodes are
/// exactly those that the guest was created with (none where it was created without), the
/// address comes from the network, and the host name ends in the first eight characters of the
/// machine's identifier, or in all of them where there are fewer.
pub proof fn guest_joins_as_it_was_created(
    player_name: Seq<char>,
    machine_id: Seq<char>,
    vendor: Seq<char>,
    custom_keys: Seq<Seq<char>>,
    relay_nodes: Option<Seq<Seq<char>>>,
    states: Seq<GuestState>,
    moves: Seq<GuestMove>,
    n: int,
    code: RoomCode,
    elevated: bool,
    bind_ip: Option<String>,
    action: JoinAction,
)
    requires
        guest_run(states, moves),
        states[0] == new_guest(player_name, machine_id, vendor, custom_keys, relay_nodes),
        0 <= n < moves.len(),
        moves[n] == GuestMove::Join(JoinEvent::Begin(code, elevated, bind_ip), action),
    ensures
        action is StartNetwork,
        ({
            let config = action->StartNetwork_0@;
            let head = "scaffolding-mc-guest-"@;
            &&& config.relay_nodes == relay_nodes
            &&& config.network_name == "scaffolding-mc-"@ + code@.subrange(2, 11)
            &&& config.network_secret == code@.subrange(12, 21)
            &&& head.is_prefix_of(config.hostname)
            &&& config.hostname.skip(head.len() as int).is_prefix_of(machine_id)
            &&& config.hostname.len() == head.len() + if machine_id.len() < 8 {
                machine_id.len()
            } else {
                8
            }
            &&& config.dhcp
            &&& config.ipv4 is None
            &&& config.no_tun == !elevated
            &&& config.use_smoltcp == !elevated
            &&& config.listen_random_ports
            &&& config.tcp_whitelist.len() == 0
            &&& config.port_forwards.len() == 0
            &&& config.bind_ip == text::optional_text(bind_ip)
        }),
{
    guest_keeps_what_was_given(states, moves, n);
    assert(move_at(states, moves, n));
    let head = "scaffolding-mc-guest-"@;
    let config = action->StartNetwork_0@;
    let tail = first_chars(machine_id, 8);
    assert(config.hostname == head + tail);
    assert(config.hostname.subrange(0, head.len() as int) =~= head);
    assert(config.hostname.skip(head.len() as int) =~= tail);
    assert(machine_id.subrange(0, tail.len() as int) =~= tail);
}

/// A host and a guest that were given the same code meet: whatever else they were created with,
/// they start their networks with the same name and the same secret, and with the same relay
/// nodes where they were created with the same ones. Given different codes, their networks
/// differ in name or in secret.
pub proof fn host_and_guest_meet(
    host: scaffolding_center::CenterState,
    center_states: Seq<scaffolding_center::CenterState>,
    center_events: Seq<scaffolding_center::StartEvent>,
    center_actions: Seq<scaffolding_center::StartAction>,
    c: int,
    guest: GuestState,
    states: Seq<GuestState>,
    moves: Seq<GuestMove>,
    n: int,
    code: RoomCode,
    elevated: bool,
    bind_ip: Option<String>,
    action: JoinAction,
)
    requires
        host == scaffolding_center::created(
            host.room_code,
            host.player_name,
            host.machine_id,
            host.vendor,
            host.minecraft_port,
            host.relay_nodes,
            host.custom_keys,
        ),
        guest == new_guest(
            guest.player_name,
            guest.machine_id,
            guest.vendor,
            guest.custom_keys,
            guest.relay_nodes,
        ),
        scaffolding_center::start_run(center_states, center_events, center_actions),
        center_states[0] == host,
        0 <= c < center_actions.len(),
        center_actions[c] is Join,
        guest_run(states, moves),
        states[0] == guest,
        0 <= n < moves.len(),
        moves[n] == GuestMove::Join(JoinEvent::Begin(code, elevated, bind_ip), action),
        room_code::well_formed(host.room_code),
        room_code::well_formed(code@),
    ensures
        action is StartNetwork,
        ({
            let theirs = center_actions[c]->Join_0@;
            let mine = action->StartNetwork_0@;
            &&& (theirs.network_name == mine.network_name && theirs.network_secret
                == mine.network_secret) <==> code@ == host.room_code
            &&& theirs.relay_nodes == mine.relay_nodes <==> host.relay_nodes == guest.relay_nodes
        }),
{
    let _ = scaffolding_center::center_joins_as_it_was_created(
        host.room_code,
        host.player_name,
        host.machine_id,
        host.vendor,
        host.minecraft_port,
        host.relay_nodes,
        host.custom_keys,
        center_states,
        center_events,
        center_actions,
        c,
    );
    guest_joins_as_it_was_created(
        guest.player_name,
        guest.machine_id,
        guest.vendor,
        guest.custom_keys,
        guest.relay_nodes,
        states,
        moves,
        n,
        code,
        elevated,
        bind_ip,
        action,
    );
    let theirs = center_actions[c]->Join_0@;
    let mine = action->StartNetwork_0@;
    if theirs.network_name == mine.network_name && theirs.network_secret == mine.network_secret {
        let size = "scaffolding-mc-"@.len() as int;
        assert(theirs.network_name.skip(size) =~= host.room_code.subrange(2, 11));
        assert(mine.network_name.skip(size) =~= code@.subrange(2, 11));
        room_code::parts_determine_the_code(host.room_code, code@);
    }
}

/// A guest that reached its center directly finds the game server at the address at which the
/// center was found, whatever that address is, and at the port that the center answers with;
/// no port forward is needed.
pub proof fn game_server_is_where_the_center_was_found(
    states: Seq<GuestState>,
    moves: Seq<GuestMove>,
    found: int,
    joined: int,
    n: int,
    center: CenterDiscoveryResult,
    tried: JoinAction,
    response: ProtocolResponse,
    action: MapAction,
)
    requires
        guest_run(states, moves),
        0 <= found < joined < n < moves.len(),
        moves[found] == GuestMove::Join(JoinEvent::CenterFound(center), tried),
        tried is Try,
        finds_none(moves, found + 1, n),
        moves[joined] == GuestMove::Join(JoinEvent::Tried(true), JoinAction::Joined),
        states[joined].join_stage is Direct,
        joins_none(moves, joined + 1, n),
        moves[n] == GuestMove::Ask(MapEvent::Answered(Ok(response)), action),
        states[n].map_stage is Asking,
        response@.status == 0,
        response@.body.len() == 2,
    ensures
        tried->Try_0@ == center.virtual_ip@,
        tried->Try_1 == center.port,
        action is Mapped,
        action->Mapped_0@ == center.virtual_ip@,
        action->Mapped_1 == response@.body[0] * 256 + response@.body[1],
        states[n + 1].minecraft == Some((center.virtual_ip@, action->Mapped_1)),
{
    assert(move_at(states, moves, found));
    assert(move_at(states, moves, joined));
    assert(move_at(states, moves, n));
    center_stays(states, moves, found + 1, n);
    way_stays(states, moves, joined + 1, n);
}

/// Whatever way a guest took, an address that it reports without a port forward is that of the
/// center that was found last, and the port is the one in the center's answer.
pub proof fn mapped_address_is_the_centers(
    states: Seq<GuestState>,
    moves: Seq<GuestMove>,
    found: int,
    n: int,
    center: CenterDiscoveryResult,
    tried: JoinAction,
    response: ProtocolResponse,
    host: String,
    port: u16,
)
    requires
        guest_run(states, moves),
        0 <= found < n < moves.len(),
        moves[found] == GuestMove::Join(JoinEvent::CenterFound(center), tried),
        tried is Try,
        finds_none(moves, found + 1, n),
        moves[n] == GuestMove::Ask(
            MapEvent::Answered(Ok(response)),
            MapAction::Mapped(host, port),
        ),
    ensures
        host@ == center.virtual_ip@,
        response@.status == 0,
        response@.body.len() == 2,
        port == response@.body[0] * 256 + response@.body[1],
        !states[n].use_port_forward,
{
    assert(move_at(states, moves, found));
    assert(move_at(states, moves, n));
    center_stays(states, moves, found + 1, n);
}

/// A guest that waits for a free port does so for a port that the center answered with.
proof fn searching_was_answered(states: Seq<GuestState>, moves: Seq<GuestMove>, n: int) -> (j: int)
    requires
        guest_run(states, moves),
        states[0].map_stage is Idle,
        0 <= n < states.len(),
        states[n].map_stage is Searching,
    ensures
        0 <= j < n,
        moves[j] matches GuestMove::Ask(MapEvent::Answered(Ok(response)), MapAction::FindPort) && {
            &&& response@.status == 0
            &&& response@.body.len() == 2
            &&& states[n].map_stage->Searching_0 == response@.body[0] * 256 + response@.body[1]
        },
    decreases n,
{
    assert(n > 0);
    assert(move_at(states, moves, n - 1));
    if states[n - 1].map_stage == states[n].map_stage {
        searching_was_answered(states, moves, n - 1)
    } else {
        n - 1
    }
}

/// A guest that waits for a port forward asked for it from a free port that it was given.
proof fn forwarding_was_asked(states: Seq<GuestState>, moves: Seq<GuestMove>, n: int) -> (k: int)
    requires
        guest_run(states, moves),
        states[0].map_stage is Idle,
        0 <= n < states.len(),
        states[n].map_stage is Forwarding,
    ensures
        0 <= k < n,
        states[k].map_stage == MapStage::Searching(states[n].map_stage->Forwarding_1),
        states[k].center is Some,
        moves[k] matches GuestMove::Ask(MapEvent::LocalPort(local), MapAction::AddForward(forward))
            && {
            &&& local == states[n].map_stage->Forwarding_0
            &&& forward@ == port_forward::forward_text(
                local,
                states[k].center->0.virtual_ip,
                states[n].map_stage->Forwarding_1,
            )
        },
    decreases n,
{
    assert(n > 0);
    assert(move_at(states, moves, n - 1));
    if states[n - 1].map_stage == states[n].map_stage {
        forwarding_was_asked(states, moves, n - 1)
    } else {
        n - 1
    }
}

/// Where the game server is reached through a port forward, the guest reports this machine and
/// the free port that the forward starts from, and the forward leads to the address at which
/// the center was found and to the port that the center answered with.
pub proof fn forward_leads_to_the_game_server(
    states: Seq<GuestState>,
    moves: Seq<GuestMove>,
    n: int,
    center: CenterDiscoveryResult,
    tried: JoinAction,
    host: String,
    port: u16,
) -> (steps: (int, int))
    requires
        guest_run(states, moves),
        states[0].map_stage is Idle,
        0 < n < moves.len(),
        moves[0] == GuestMove::Join(JoinEvent::CenterFound(center), tried),
        tried is Try,
        finds_none(moves, 1, n),
        moves[n] == GuestMove::Ask(MapEvent::ForwardAdded, MapAction::Mapped(host, port)),
    ensures
        host@ == "127.0.0.1"@,
        states[n + 1].minecraft == Some(("127.0.0.1"@, port)),
        0 <= steps.0 < steps.1 < n,
        moves[steps.0] matches GuestMove::Ask(
            MapEvent::Answered(Ok(response)),
            MapAction::FindPort,
        ) && {
            &&& response@.status == 0
            &&& response@.body.len() == 2
            &&& moves[steps.1] matches GuestMove::Ask(
                MapEvent::LocalPort(local),
                MapAction::AddForward(forward),
            ) && {
                &&& local == port
                &&& port_forward::forward_parts(forward@) == Some(
                    (
                        "tcp"@,
                        "127.0.0.1:"@ + text::decimal(port as nat),
                        center.virtual_ip@ + ":"@ + text::decimal(
                            (response@.body[0] * 256 + response@.body[1]) as nat,
                        ),
                    ),
                )
                &&& states[n + 1].forwards == states[n].forwards.push(forward@)
            }
        },
{
    assert(move_at(states, moves, 0));
    assert(move_at(states, moves, n));
    let k = forwarding_was_asked(states, moves, n);
    let j = searching_was_answered(states, moves, k);
    assert(k > 0);
    center_stays(states, moves, 1, k);
    center_stays(states, moves, 1, n);
    port_forward::written_forward_reads_back(
        port,
        center.virtual_ip@,
        states[n].map_stage->Forwarding_1,
    );
    (j, k)
}

/// How a guest asks for the game server: only where it is in a room, and by the key
/// `c:server_port`. An answer that reports a failure, or none at all, fails the mapping, and
/// what is known stays as it was.
pub proof fn server_is_asked_for(
    before: GuestState,
    event: MapEvent,
    after: GuestState,
    action: MapAction,
)
    requires
        map_stepped(before, event, after, action),
    ensures
        event is Begin && before.center is None ==> (action matches MapAction::Fail(error)
            && error@ == ErrorView::CenterConnection("尚未加入房间"@)),
        event is Begin && before.center is Some && before.minecraft is None ==> {
            &&& action matches MapAction::Ask(request) && request@.key() == "c:server_port"@
                && request@.body.len() == 0
            &&& after.map_stage is Asking
        },
        event is Begin && before.center is Some && before.minecraft is Some ==> {
            action matches MapAction::Mapped(host, port) && (host@, port) == before.minecraft->0
        },
        action is Fail ==> after.minecraft == before.minecraft && after.forwards == before.forwards
            && after.map_stage is Idle,
        action matches MapAction::Fail(error) ==> (event matches MapEvent::ForwardFailed(reason)
            ==> error@ == reason@),
        action matches MapAction::Fail(error) ==> (event matches MapEvent::Answered(Err(reason))
            ==> error@ == reason@),
        before.map_stage is Asking && event is Answered ==> (event->Answered_0 is Err ==> action is Fail),
        before.map_stage is Asking && event is Answered && event->Answered_0 is Ok
            && event->Answered_0->Ok_0@.status != 0 ==> action is Fail,
        before.map_stage is Forwarding && event is ForwardFailed ==> action is Fail,
        after.join_stage == before.join_stage,
        after.center == before.center,
        after.negotiated == before.negotiated,
        after.use_port_forward == before.use_port_forward,
{
    requests::standard_keys_are_asked(Seq::empty());
    if before.map_stage is Asking && event is Answered && event->Answered_0 is Ok {
        requests::port_is_two_bytes(event->Answered_0->Ok_0@);
    }
}

/// Where a guest tries to reach the center: first at the address at which it was found, then at
/// this machine and the free port that it was given, from which a forward leads to the center.
pub proof fn attempts_lead_to_the_center(
    before: GuestState,
    event: JoinEvent,
    after: GuestState,
    action: JoinAction,
)
    requires
        join_stepped(before, event, after, action),
    ensures
        before.join_stage is Discovering ==> (event matches JoinEvent::CenterFound(center) ==> {
            &&& action matches JoinAction::Try(host, port) && host@ == center.virtual_ip@ && port
                == center.port
            &&& after.center == Some(center@)
            &&& after.forwards.len() == 0
            &&& after.join_stage is Direct
        }),
        before.join_stage is Direct && event == JoinEvent::Tried(false) ==> action is FindPort
            && after.join_stage is Searching,
        before.join_stage is Searching && before.center is Some ==> (
        event matches JoinEvent::LocalPort(local) ==> {
            &&& after.join_stage == JoinStage::Forwarding(local)
            &&& action matches JoinAction::AddForward(forward) && port_forward::forward_parts(
                forward@,
            ) == Some(
                (
                    "tcp"@,
                    "127.0.0.1:"@ + text::decimal(local as nat),
                    before.center->0.virtual_ip + ":"@ + text::decimal(
                        before.center->0.port as nat,
                    ),
                ),
            )
        }),
        before.join_stage is Forwarding && before.center is Some && event
            == JoinEvent::ForwardAdded(false) ==> {
            let local = before.join_stage->Forwarding_0;
            &&& action matches JoinAction::Try(host, port) && host@ == "127.0.0.1"@ && port == local
            &&& after.join_stage == JoinStage::Retrying(local, 1)
        },
        before.join_stage is Forwarding && before.center is Some && event
            == JoinEvent::ForwardAdded(true) ==> {
            &&& action matches JoinAction::Fail(error) && error@ == ErrorView::CenterConnection(
                "无法连接到联机中心（端口转发建立失败）"@,
            )
            &&& after.join_stage is Idle
        },
        before.join_stage is Forwarding && before.center is Some && event is ForwardAdded ==> {
            let local = before.join_stage->Forwarding_0;
            &&& after.forwards.len() == before.forwards.len() + 1
            &&& port_forward::forward_parts(after.forwards.last()) == Some(
                (
                    "tcp"@,
                    "127.0.0.1:"@ + text::decimal(local as nat),
                    before.center->0.virtual_ip + ":"@ + text::decimal(
                        before.center->0.port as nat,
                    ),
                ),
            )
        },
{
    if let Some(center) = before.center {
        if let JoinEvent::LocalPort(local) = event {
            port_forward::written_forward_reads_back(local, center.virtual_ip, center.port);
        }
        if let JoinStage::Forwarding(local) = before.join_stage {
            port_forward::written_forward_reads_back(local, center.virtual_ip, center.port);
        }
    }
}

/// Through a port forward a guest makes ten attempts, with a pause between each two, always at
/// this machine and the same port, and stops at the first that succeeds. It gives up after the
/// tenth, or when it is cancelled in a pause.
pub proof fn ten_attempts_are_made(
    before: GuestState,
    event: JoinEvent,
    after: GuestState,
    action: JoinAction,
    local: u16,
    attempt: u32,
)
    requires
        join_stepped(before, event, after, action),
        1 <= attempt <= 10,
    ensures
        before.join_stage == JoinStage::Retrying(local, attempt) && event == JoinEvent::Tried(true)
            ==> action is Joined && after.join_stage is Joined && after.use_port_forward,
        before.join_stage == JoinStage::Retrying(local, attempt) && event == JoinEvent::Tried(
            false,
        ) && attempt < 10 ==> action is Pause && after.join_stage == JoinStage::Pausing(
            local,
            attempt,
        ),
        before.join_stage == JoinStage::Retrying(local, 10) && event == JoinEvent::Tried(false)
            ==> after.join_stage is Idle && (action matches JoinAction::Fail(error) && error@
            == ErrorView::CenterConnection("无法连接到联机中心（端口转发建立失败）"@)),
        before.join_stage == JoinStage::Pausing(local, attempt) && event == JoinEvent::Paused(false)
            && attempt < 10 ==> {
            &&& action matches JoinAction::Try(host, port) && host@ == "127.0.0.1"@ && port == local
            &&& after.join_stage == JoinStage::Retrying(local, (attempt + 1) as u32)
        },
        before.join_stage == JoinStage::Pausing(local, attempt) && event == JoinEvent::Paused(true)
            ==> after.join_stage is Idle && (action matches JoinAction::Fail(error) && error@
            == ErrorView::CenterConnection("无法连接到联机中心（端口转发建立失败）"@)),
{
}

/// Joining passes on why it failed, and no failure makes a guest forget the center or the game
/// server that it knows. A room counts as joined only after an attempt that succeeded.
pub proof fn failed_join_says_why(
    before: GuestState,
    event: JoinEvent,
    after: GuestState,
    action: JoinAction,
)
    requires
        join_stepped(before, event, after, action),
    ensures
        action matches JoinAction::Fail(error) ==> (event matches JoinEvent::Failed(reason)
            ==> error@ == reason@),
        event is Failed && (before.join_stage is Starting || before.join_stage is Discovering
            || before.join_stage is Forwarding) ==> action is Fail && after.join_stage is Idle,
        action is Fail ==> after.center == before.center && after.minecraft == before.minecraft,
        action is Joined ==> event == JoinEvent::Tried(true),
        after.join_stage is Joined && !(before.join_stage is Joined) ==> action is Joined,
        before.join_stage is Direct && event == JoinEvent::Tried(true) ==> action is Joined
            && !after.use_port_forward,
        before.join_stage is Starting && event is NetworkUp ==> action is Discover
            && after.join_stage is Discovering,
        after.minecraft == before.minecraft,
        after.map_stage == before.map_stage,
        after.negotiated == before.negotiated,
{
}

/// An attempt introduces the guest, with its own name, machine and launcher, by the key
/// `c:player_ping`, then tells the keys that it knows by the key `c:protocols`. It succeeds
/// where the center answered both, whatever the status; without an answer it is given up, and
/// nothing changes.
pub proof fn attempt_introduces_the_guest(
    before: GuestState,
    event: AttemptEvent,
    node_id: Option<Seq<char>>,
    after: GuestState,
    action: AttemptAction,
)
    requires
        attempt_stepped(before, event, node_id, after, action),
    ensures
        event == AttemptEvent::Connected(true) ==> {
            action matches AttemptAction::Introduce(request) && {
                &&& request@.key() == "c:player_ping"@
                &&& json::json_parsed(request@.body) matches Ok(root) && requests::describes(
                    root,
                    EntryView {
                        name: before.player_name,
                        machine_id: before.machine_id,
                        easytier_id: if before.negotiated.contains("c:player_easytier_id"@) {
                            Some(
                                match node_id {
                                    Some(id) => id,
                                    None => Seq::empty(),
                                },
                            )
                        } else {
                            None
                        },
                        vendor: before.vendor,
                        kind: None,
                    },
                )
            }
        },
        event matches AttemptEvent::Introduced(Some(_)) ==> {
            action matches AttemptAction::Negotiate(request) && {
                &&& request@.key() == "c:protocols"@
                &&& request@.body == vstd::utf8::encode_utf8(
                    text::join(
                        scaffolding_center::standard_keys() + before.custom_keys,
                        '\0',
                    ),
                )
            }
        },
        event matches AttemptEvent::Negotiated(Some(_)) ==> action is Succeed,
        event == AttemptEvent::Connected(false) || event == AttemptEvent::Introduced(None) || event
            == AttemptEvent::Negotiated(None) ==> action is GiveUp && after == before,
        after == (GuestState { negotiated: after.negotiated, ..before }),
        !(event is Negotiated) ==> after == before,
{
    if event == AttemptEvent::Connected(true) {
        let request = action->Introduce_0;
        requests::standard_keys_are_asked(request@.body);
        requests::messages_describe_the_player(before.entry(node_id));
    }
    if let AttemptEvent::Introduced(Some(_)) = event {
        let request = action->Negotiate_0;
        requests::standard_keys_are_asked(request@.body);
    }
}

/// After an attempt the guest has negotiated exactly the keys that it knows, standard ones or
/// its own, and that stand in the center's answer; an answer that reports a failure changes
/// nothing.
pub proof fn attempt_negotiates_the_common_keys(
    before: GuestState,
    response: ProtocolResponse,
    node_id: Option<Seq<char>>,
    after: GuestState,
    action: AttemptAction,
    key: Seq<char>,
)
    requires
        attempt_stepped(
            before,
            AttemptEvent::Negotiated(Some(response)),
            node_id,
            after,
            action,
        ),
    ensures
        response@.status == 0 ==> (after.negotiated.contains(key) <==> (
        scaffolding_center::standard_keys().contains(key) || before.custom_keys.contains(key))
            && requests::keys_in(response@.body).contains(key)),
        response@.status != 0 ==> after.negotiated == before.negotiated,
{
    let standard = scaffolding_center::standard_keys();
    let mine = standard + before.custom_keys;
    protocol_negotiator::negotiated_is_intersection(
        mine,
        requests::keys_in(response@.body),
        key,
    );
    if mine.contains(key) {
        let i = choose|i: int| 0 <= i < mine.len() && mine[i] == key;
        if i < standard.len() {
            assert(standard[i] == key);
        } else {
            assert(before.custom_keys[i - standard.len()] == key);
        }
    }
    if standard.contains(key) {
        let i = choose|i: int| 0 <= i < standard.len() && standard[i] == key;
        assert(mine[i] == key);
    }
    if before.custom_keys.contains(key) {
        let i = choose|i: int| 0 <= i < before.custom_keys.len() && before.custom_keys[i] == key;
        assert(mine[standard.len() + i] == key);
    }
}

/// A heartbeat goes to the key `c:player_ping` and describes the guest; without a connection its
/// loss is reported and nothing is sent.
pub proof fn heartbeat_describes_the_guest(
    guest: GuestState,
    connected: bool,
    node_id: Option<Seq<char>>,
    step: HeartbeatStep,
)
    requires
        heartbeat_due(guest, connected, node_id, step),
    ensures
        step is Send <==> connected,
        step matches HeartbeatStep::Send(request) ==> {
            &&& request@.key() == "c:player_ping"@
            &&& json::json_parsed(request@.body) matches Ok(root) && requests::describes(
                root,
                EntryView {
                    name: guest.player_name,
                    machine_id: guest.machine_id,
                    easytier_id: if guest.negotiated.contains("c:player_easytier_id"@) {
                        Some(
                            match node_id {
                                Some(id) => id,
                                None => Seq::empty(),
                            },
                        )
                    } else {
                        None
                    },
                    vendor: guest.vendor,
                    kind: None,
                },
            )
        },
{
    if let HeartbeatStep::Send(request) = step {
        requests::standard_keys_are_asked(request@.body);
        requests::messages_describe_the_player(guest.entry(node_id));
    }
}

/// What comes out of turn changes nothing.
pub proof fn out_of_turn_changes_nothing(before: GuestState, step: GuestMove, after: GuestState)
    requires
        guest_moved(before, step, after),
    ensures
        step matches GuestMove::Join(_, action) ==> (action is Ignore ==> after == before),
        step matches GuestMove::Ask(_, action) ==> (action is Ignore ==> after == before),
        step matches GuestMove::Join(event, action) ==> (action is Ignore ==> !(event is Begin)),
        step matches GuestMove::Ask(event, action) ==> (action is Ignore ==> !(event is Begin)),
{
}

} // verus!
