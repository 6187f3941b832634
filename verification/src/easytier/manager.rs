//! How an instance of the virtual network is started and stopped.
use vstd::prelude::*;

use crate::easytier::addresses;
use crate::error::{ErrorView, ScaffoldingError};
use crate::text;

verus! {

/// How long an instance may take to come up, in milliseconds.
pub const STARTUP_TIMEOUT_MS: u64 = 30_000;

/// How long to wait before looking again whether an instance came up, in milliseconds.
pub const POLL_INTERVAL_MS: u64 = 500;

/// How long to wait once an instance came up, in milliseconds.
pub const STARTUP_BUFFER_MS: u64 = 2_000;

/// How far the start of an instance is.
#[derive(Debug, Clone, Copy, PartialEq, Eq, Structural)]
pub enum ManagerStage {
    /// No start is under way.
    Idle,
    /// Waits for the instance to be set up and run.
    Launching,
    /// Waits for the instance to come up, until this time (in milliseconds).
    Polling(u64),
    /// Waits for an instance that came up to settle.
    Settling,
}

/// What happened to an instance.
pub enum ManagerEvent {
    /// An instance is to be started. Whether one runs already, and the fixed address of the
    /// new one.
    Start(bool, Option<String>),
    /// The instance could not be set up.
    SetUpFailed(ScaffoldingError),
    /// The instance could not be run, for this reason.
    RunFailed(String),
    /// The instance runs: its identifier, and the time (in milliseconds).
    Running(u128, u64),
    /// Whether the instance came up, and the time (in milliseconds).
    Polled(bool, u64),
    /// The instance settled: its number in the network and the address that the network
    /// assigned to it, where it still exists.
    Settled(Option<(u32, Option<String>)>),
}

/// What to do next with an instance.
pub enum ManagerAction {
    /// Set the instance up and run it.
    Launch,
    /// Look whether the instance came up.
    Poll,
    /// Wait for [`POLL_INTERVAL_MS`], then look again.
    Wait,
    /// Wait for [`STARTUP_BUFFER_MS`].
    Settle,
    /// The instance is started.
    Started,
    /// The start failed.
    Fail(ScaffoldingError),
    /// Nothing: the event does not fit the stage.
    Ignore,
}

/// The manager of one instance.
#[derive(Debug)]
pub struct EasyTierManager {
    instance_id: Option<u128>,
    virtual_ip: Option<String>,
    node_id: Option<String>,
    fixed_ip: Option<String>,
    stage: ManagerStage,
}

/// What the manager of an instance holds.
#[verifier::ext_equal]
pub struct ManagerState {
    /// The identifier of the instance.
    pub instance_id: Option<u128>,
    /// The instance's address in the virtual network.
    pub virtual_ip: Option<Seq<char>>,
    /// The instance's number in the virtual network.
    pub node_id: Option<Seq<char>>,
    /// The fixed address that the instance is started with.
    pub fixed_ip: Option<Seq<char>>,
    pub stage: ManagerStage,
}

impl View for EasyTierManager {
    type V = ManagerState;

    closed spec fn view(&self) -> ManagerState {
        ManagerState {
            instance_id: self.instance_id,
            virtual_ip: text::optional_text(self.virtual_ip),
            node_id: text::optional_text(self.node_id),
            fixed_ip: text::optional_text(self.fixed_ip),
            stage: self.stage,
        }
    }
}

/// A manager without an instance.
pub open spec fn no_instance() -> ManagerState {
    ManagerState {
        instance_id: None,
        virtual_ip: None,
        node_id: None,
        fixed_ip: None,
        stage: ManagerStage::Idle,
    }
}

/// The time at which the start of an instance that runs since `now` is given up.
pub open spec fn startup_deadline(now: u64) -> u64 {
    if now + STARTUP_TIMEOUT_MS <= u64::MAX {
        (now + STARTUP_TIMEOUT_MS) as u64
    } else {
        u64::MAX
    }
}

/// What follows an event: the manager after it, and what to do.
pub open spec fn manager_stepped(
    before: ManagerState,
    event: ManagerEvent,
    after: ManagerState,
    action: ManagerAction,
) -> bool {
    match (before.stage, event) {
        (_, ManagerEvent::Start(running, fixed_ip)) => if running {
            &&& after == before
            &&& action matches ManagerAction::Fail(error) && error@ == ErrorView::EasyTierStart(
                "EasyTier 已在运行中"@,
            )
        } else {
            &&& after == (ManagerState {
                virtual_ip: None,
                node_id: None,
                fixed_ip: text::optional_text(fixed_ip),
                stage: ManagerStage::Launching,
                ..before
            })
            &&& action is Launch
        },
        (ManagerStage::Launching, ManagerEvent::SetUpFailed(reason)) => {
            &&& after == (ManagerState { stage: ManagerStage::Idle, ..before })
            &&& action matches ManagerAction::Fail(error) && error@ == reason@
        },
        (ManagerStage::Launching, ManagerEvent::RunFailed(reason)) => {
            &&& after == (ManagerState { stage: ManagerStage::Idle, ..before })
            &&& action matches ManagerAction::Fail(error) && error@ == ErrorView::EasyTierStart(
                "启动 EasyTier 实例失败: "@ + reason@,
            )
        },
        (ManagerStage::Launching, ManagerEvent::Running(id, now)) => {
            &&& after == (ManagerState {
                instance_id: Some(id),
                stage: ManagerStage::Polling(startup_deadline(now)),
                ..before
            })
            &&& action is Poll
        },
        (ManagerStage::Polling(deadline), ManagerEvent::Polled(ready, now)) => if ready {
            &&& after == (ManagerState { stage: ManagerStage::Settling, ..before })
            &&& action is Settle
        } else if now >= deadline {
            &&& after == (ManagerState { stage: ManagerStage::Idle, ..before })
            &&& action matches ManagerAction::Fail(error) && error@ == ErrorView::EasyTierTimeout(
                "EasyTier 启动超时 (30s)"@,
            )
        } else {
            after == before && action is Wait
        },
        (ManagerStage::Settling, ManagerEvent::Settled(found)) => {
            &&& after == match found {
                Some((number, assigned)) => ManagerState {
                    node_id: Some(text::decimal(number as nat)),
                    virtual_ip: match before.fixed_ip {
                        Some(ip) => Some(addresses::without_prefix(ip)),
                        None => match assigned {
                            Some(ip) => Some(ip@),
                            None => before.virtual_ip,
                        },
                    },
                    stage: ManagerStage::Idle,
                    ..before
                },
                None => ManagerState { stage: ManagerStage::Idle, ..before },
            }
            &&& action is Started
        },
        _ => after == before && action is Ignore,
    }
}

impl EasyTierManager {
    /// A manager without an instance.
    pub fn new() -> (manager: Self)
        ensures
            manager@ == no_instance(),
    {
        EasyTierManager {
            instance_id: None,
            virtual_ip: None,
            node_id: None,
            fixed_ip: None,
            stage: ManagerStage::Idle,
        }
    }

    /// The identifier of the instance.
    pub fn instance_id(&self) -> (id: Option<u128>)
        ensures
            id == self@.instance_id,
    {
        self.instance_id
    }

    /// The instance's address in the virtual network.
    pub fn virtual_ip(&self) -> (ip: Option<String>)
        ensures
            text::optional_text(ip) == self@.virtual_ip,
    {
        text::copy_optional(&self.virtual_ip)
    }

    /// The instance's number in the virtual network.
    pub fn node_id(&self) -> (id: Option<String>)
        ensures
            text::optional_text(id) == self@.node_id,
    {
        text::copy_optional(&self.node_id)
    }

    /// What follows an event. An instance that does not come up in time is reported, and keeps
    /// running.
    pub fn step(&mut self, event: ManagerEvent) -> (action: ManagerAction)
        ensures
            manager_stepped(old(self)@, event, final(self)@, action),
    {
        match (self.stage, event) {
            (_, ManagerEvent::Start(running, fixed_ip)) => if running {
                ManagerAction::Fail(
                    ScaffoldingError::EasyTierStart("EasyTier 已在运行中".to_owned()),
                )
            } else {
                self.virtual_ip = None;
                self.node_id = None;
                self.fixed_ip = fixed_ip;
                self.stage = ManagerStage::Launching;
                ManagerAction::Launch
            },
            (ManagerStage::Launching, ManagerEvent::SetUpFailed(error)) => {
                self.stage = ManagerStage::Idle;
                ManagerAction::Fail(error)
            },
            (ManagerStage::Launching, ManagerEvent::RunFailed(reason)) => {
                self.stage = ManagerStage::Idle;
                ManagerAction::Fail(
                    ScaffoldingError::EasyTierStart(
                        text::concat("启动 EasyTier 实例失败: ", reason.as_str()),
                    ),
                )
            },
            (ManagerStage::Launching, ManagerEvent::Running(id, now)) => {
                let deadline: u64 = if now <= u64::MAX - STARTUP_TIMEOUT_MS {
                    now + STARTUP_TIMEOUT_MS
                } else {
                    u64::MAX
                };
                self.instance_id = Some(id);
                self.stage = ManagerStage::Polling(deadline);
                ManagerAction::Poll
            },
            (ManagerStage::Polling(deadline), ManagerEvent::Polled(ready, now)) => if ready {
                self.stage = ManagerStage::Settling;
                ManagerAction::Settle
            } else if now >= deadline {
                self.stage = ManagerStage::Idle;
                ManagerAction::Fail(
                    ScaffoldingError::EasyTierTimeout("EasyTier 启动超时 (30s)".to_owned()),
                )
            } else {
                ManagerAction::Wait
            },
            (ManagerStage::Settling, ManagerEvent::Settled(found)) => {
                if let Some((number, assigned)) = found {
                    self.node_id = Some(text::decimal_text(number as u64));
                    match &self.fixed_ip {
                        Some(ip) => {
                            self.virtual_ip = Some(addresses::strip_cidr(ip.as_str()));
                        },
                        None => {
                            if let Some(ip) = assigned {
                                self.virtual_ip = Some(ip);
                            }
                        },
                    }
                }
                self.stage = ManagerStage::Idle;
                ManagerAction::Started
            },
            _ => ManagerAction::Ignore,
        }
    }

    /// Forgets the instance, and returns its identifier, so that it can be stopped.
    pub fn stop(&mut self) -> (id: Option<u128>)
        ensures
            id == old(self)@.instance_id,
            final(self)@ == no_instance(),
    {
        let id = self.instance_id;
        self.instance_id = None;
        self.virtual_ip = None;
        self.node_id = None;
        self.fixed_ip = None;
        self.stage = ManagerStage::Idle;
        id
    }
}

/// The node that is to be disconnected: nothing is done without an instance, and the node has
/// to be given by its number.
pub open spec fn named_peer(has_instance: bool, peer_id: Seq<char>) -> Result<
    Option<u32>,
    ErrorView,
> {
    if !has_instance {
        Ok(None)
    } else {
        match text::u32_value(peer_id) {
            Some(number) => Ok(Some(number)),
            None => Err(
                ErrorView::EasyTierStart(
                    "无效的 peer id: "@ + peer_id + ": "@ + text::u32_parse_error(peer_id),
                ),
            ),
        }
    }
}

/// The node that is to be disconnected: nothing is done without an instance, and the node has
/// to be given by its number.
pub fn peer_to_disconnect(has_instance: bool, peer_id: &str) -> (peer: Result<
    Option<u32>,
    ScaffoldingError,
>)
    ensures
        match peer {
            Ok(number) => named_peer(has_instance, peer_id@) == Ok::<Option<u32>, ErrorView>(number),
            Err(error) => named_peer(has_instance, peer_id@) == Err::<Option<u32>, ErrorView>(
                error@,
            ),
        },
{
    if !has_instance {
        return Ok(None);
    }
    match text::parse_u32(peer_id) {
        Ok(number) => Ok(Some(number)),
        Err(reason) => {
            let mut message = text::concat("无效的 peer id: ", peer_id);
            message.append(": ");
            message.append(reason.as_str());
            Err(ScaffoldingError::EasyTierStart(message))
        },
    }
}

/// The error for a node that could not be disconnected.
pub fn disconnect_failed(reason: &str) -> (error: ScaffoldingError)
    ensures
        error@ == ErrorView::EasyTierStart("断开 peer 失败: "@ + reason@),
{
    ScaffoldingError::EasyTierStart(text::concat("断开 peer 失败: ", reason))
}

/// The error for a port forward that could not be added.
pub fn forward_failed(forward: &str, reason: &str) -> (error: ScaffoldingError)
    ensures
        error@ == ErrorView::EasyTierStart(
            "动态添加端口转发失败: "@ + forward@ + ": "@ + reason@,
        ),
{
    let mut message = text::concat("动态添加端口转发失败: ", forward);
    message.append(": ");
    message.append(reason);
    ScaffoldingError::EasyTierStart(message)
}

// ---------------------------------------------------------------------------------------
// Laws
// ---------------------------------------------------------------------------------------
/// A second instance is not started: what is known of the first stays. Else nothing is known of
/// the address and the number of the new one until it has settled.
pub proof fn one_instance_at_a_time(
    before: ManagerState,
    running: bool,
    fixed_ip: Option<String>,
    after: ManagerState,
    action: ManagerAction,
)
    requires
        manager_stepped(before, ManagerEvent::Start(running, fixed_ip), after, action),
    ensures
        running ==> after == before && (action matches ManagerAction::Fail(error) && error@
            == ErrorView::EasyTierStart("EasyTier 已在运行中"@)),
        !running ==> action is Launch && after.virtual_ip is None && after.node_id is None
            && after.fixed_ip == text::optional_text(fixed_ip),
{
}

/// An instance that runs since a time is given up at the first look 30 seconds later or more,
/// and not before; an instance that came up never is. One that is given up keeps running: its
/// identifier is kept.
pub proof fn instance_has_thirty_seconds(
    before: ManagerState,
    id: u128,
    since: u64,
    between: ManagerState,
    first: ManagerAction,
    ready: bool,
    now: u64,
    after: ManagerState,
    second: ManagerAction,
)
    requires
        before.stage is Launching,
        manager_stepped(before, ManagerEvent::Running(id, since), between, first),
        manager_stepped(between, ManagerEvent::Polled(ready, now), after, second),
        since + 30_000 <= u64::MAX,
    ensures
        first is Poll,
        after.instance_id == Some(id),
        ready ==> second is Settle,
        !ready && now - since < 30_000 ==> second is Wait && after == between,
        !ready && now - since >= 30_000 ==> (second matches ManagerAction::Fail(error) && error@
            == ErrorView::EasyTierTimeout("EasyTier 启动超时 (30s)"@)),
{
}

/// An instance that has settled has the fixed address that it was started with, without the
/// prefix length, or else the one that the network assigned to it; and its number reads back.
pub proof fn settled_instance_knows_itself(
    before: ManagerState,
    number: u32,
    assigned: Option<String>,
    after: ManagerState,
    action: ManagerAction,
    ip: Seq<char>,
    length: Seq<char>,
)
    requires
        before.stage is Settling,
        manager_stepped(
            before,
            ManagerEvent::Settled(Some((number, assigned))),
            after,
            action,
        ),
        !ip.contains('/'),
    ensures
        action is Started,
        after.stage is Idle,
        after.instance_id == before.instance_id,
        after.node_id matches Some(id) && text::u32_value(id) == Some(number),
        before.fixed_ip == Some(ip) || before.fixed_ip == Some(ip.push('/') + length)
            ==> after.virtual_ip == Some(ip),
        before.fixed_ip is None ==> (assigned matches Some(given) ==> after.virtual_ip == Some(
            given@,
        )),
        before.fixed_ip is None && assigned is None ==> after.virtual_ip == before.virtual_ip,
{
    addresses::prefix_is_cut_off(ip, length);
    text::decimal_roundtrip(number as nat);
}

/// Nothing but the start and the settling of an instance changes its address or number, and a
/// start that fails says why.
pub proof fn failed_launch_says_why(
    before: ManagerState,
    event: ManagerEvent,
    after: ManagerState,
    action: ManagerAction,
)
    requires
        manager_stepped(before, event, after, action),
    ensures
        !(event is Start) && !(event is Settled) ==> after.virtual_ip == before.virtual_ip
            && after.node_id == before.node_id && after.fixed_ip == before.fixed_ip,
        before.stage is Launching ==> (event matches ManagerEvent::SetUpFailed(reason) ==> {
            action matches ManagerAction::Fail(error) && error@ == reason@
        }),
        before.stage is Launching ==> (event matches ManagerEvent::RunFailed(reason) ==> {
            action matches ManagerAction::Fail(error) && error@ == ErrorView::EasyTierStart(
                "启动 EasyTier 实例失败: "@ + reason@,
            )
        }),
        action is Fail && !(event is Start) ==> after.stage is Idle && after.instance_id
            == before.instance_id,
        event == ManagerEvent::Settled(None) && before.stage is Settling ==> action is Started
            && after.virtual_ip == before.virtual_ip && after.node_id == before.node_id,
        action is Started ==> event is Settled && before.stage is Settling,
{
}

/// Without an instance no node is disconnected, and nothing is wrong. With one, the node is the
/// one whose number is written, and a text that is no number is reported.
pub proof fn peer_is_given_by_its_number(has_instance: bool, number: u32, peer_id: Seq<char>)
    ensures
        named_peer(true, text::decimal(number as nat)) == Ok::<Option<u32>, ErrorView>(
            Some(number),
        ),
        !has_instance ==> named_peer(has_instance, peer_id) == Ok::<Option<u32>, ErrorView>(None),
        has_instance ==> (named_peer(has_instance, peer_id) is Err <==> text::u32_value(
            peer_id,
        ) is None),
{
    text::decimal_roundtrip(number as nat);
}

/// Of an instance that was stopped nothing is known, and a new one can be started. What comes out
/// of turn changes nothing.
pub proof fn stopped_manager_knows_nothing(
    before: ManagerState,
    event: ManagerEvent,
    after: ManagerState,
    action: ManagerAction,
)
    requires
        manager_stepped(before, event, after, action),
    ensures
        no_instance().instance_id is None,
        no_instance().virtual_ip is None,
        no_instance().node_id is None,
        no_instance().fixed_ip is None,
        no_instance().stage is Idle,
        action is Ignore ==> after == before && !(event is Start),
        before.stage is Idle && !(event is Start) ==> action is Ignore,
{
}

} // verus!
