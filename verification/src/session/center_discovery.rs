//! How a guest finds the center in the virtual network: by the center's host name, which ends
//! in the center's port.
use vstd::prelude::*;

use crate::error::{ErrorView, ScaffoldingError};
use crate::models::easy_tier_node::{EasyTierNode, NodeView};
use crate::text;

verus! {

/// What the host name of a center begins with.
pub const CENTER_HOSTNAME_PREFIX: &'static str = "scaffolding-mc-server-";

/// How often the network is scanned before the search is given up.
pub const DISCOVERY_SCANS: u32 = 60;

/// How long to wait between two scans, in milliseconds.
pub const DISCOVERY_INTERVAL_MS: u64 = 500;

/// Where a center can be reached.
#[derive(Debug, PartialEq, Eq)]
pub struct CenterDiscoveryResult {
    /// The center's address in the virtual network.
    pub virtual_ip: String,
    /// The port that the center listens on.
    pub port: u16,
}

/// Where a center can be reached.
#[verifier::ext_equal]
pub struct CenterView {
    pub virtual_ip: Seq<char>,
    pub port: u16,
}

impl View for CenterDiscoveryResult {
    type V = CenterView;

    open spec fn view(&self) -> CenterView {
        CenterView { virtual_ip: self.virtual_ip@, port: self.port }
    }
}

impl Clone for CenterDiscoveryResult {
    fn clone(&self) -> (copy: Self)
        ensures
            copy@ == self@,
    {
        CenterDiscoveryResult { virtual_ip: self.virtual_ip.clone(), port: self.port }
    }
}

/// The host name of a center that listens on a port.
pub open spec fn center_hostname(port: u16) -> Seq<char> {
    CENTER_HOSTNAME_PREFIX@ + text::decimal(port as nat)
}

/// The port that the host name of a center tells: the digits behind the prefix, where they
/// stand for a number above 1024 that is a port.
pub open spec fn hostname_port(hostname: Seq<char>) -> Option<u16> {
    let digits = hostname.skip(CENTER_HOSTNAME_PREFIX@.len() as int);
    if CENTER_HOSTNAME_PREFIX@.is_prefix_of(hostname) && digits.len() > 0 && text::all_digits(
        digits,
    ) && 1024 < text::decimal_value(digits) <= 65535 {
        Some(text::decimal_value(digits) as u16)
    } else {
        None
    }
}

/// What a list of nodes holds.
pub open spec fn node_views(nodes: Seq<EasyTierNode>) -> Seq<NodeView> {
    nodes.map_values(|n: EasyTierNode| n@)
}

/// The center among a list of nodes: the first node whose host name tells a port.
pub open spec fn center_among(nodes: Seq<NodeView>) -> Option<CenterView>
    decreases nodes.len(),
{
    if nodes.len() == 0 {
        None
    } else {
        match hostname_port(nodes[0].hostname) {
            Some(port) => Some(CenterView { virtual_ip: nodes[0].virtual_ip, port }),
            None => center_among(nodes.skip(1)),
        }
    }
}

/// The host name of a center that listens on a port.
pub fn center_hostname_text(port: u16) -> (hostname: String)
    ensures
        hostname@ == center_hostname(port),
{
    text::concat(CENTER_HOSTNAME_PREFIX, text::decimal_text(port as u64).as_str())
}

fn digits_only(text: &str) -> (is: bool)
    ensures
        is == text::all_digits(text@),
{
    let chars = text::chars_of(text);
    for i in 0..chars.len()
        invariant
            chars@ == text@,
            forall|j: int| 0 <= j < i ==> text::is_digit(#[trigger] chars@[j]),
    {
        if chars[i] < '0' || chars[i] > '9' {
            return false;
        }
    }
    true
}

fn port_from_hostname(hostname: &str) -> (port: Option<u16>)
    ensures
        port == hostname_port(hostname@),
{
    if !text::begins_with(hostname, CENTER_HOSTNAME_PREFIX) {
        return None;
    }
    let chars = text::chars_of(hostname);
    let prefix_size: usize = text::chars_of(CENTER_HOSTNAME_PREFIX).len();
    let digits = text::string_between(&chars, prefix_size, chars.len());
    assert(digits@ =~= hostname@.skip(prefix_size as int));
    if prefix_size == chars.len() || !digits_only(digits.as_str()) {
        return None;
    }
    assert(text::is_digit(digits@[0]));
    match text::parse_u32(digits.as_str()) {
        Ok(number) => if 1024 < number && number <= 65535 {
            Some(number as u16)
        } else {
            None
        },
        Err(_) => None,
    }
}

/// The center among a list of nodes: the first node whose host name is
/// `scaffolding-mc-server-` and a port above 1024.
pub fn try_parse_center(nodes: &[EasyTierNode]) -> (center: Option<CenterDiscoveryResult>)
    ensures
        match center {
            Some(found) => center_among(node_views(nodes@)) == Some(found@),
            None => center_among(node_views(nodes@)) is None,
        },
{
    let ghost views = node_views(nodes@);
    assert(views.skip(0) =~= views);
    for i in 0..nodes.len()
        invariant
            views == node_views(nodes@),
            center_among(views) == center_among(views.skip(i as int)),
    {
        assert(views.skip(i as int)[0] == nodes@[i as int]@);
        assert(views.skip(i as int).skip(1) =~= views.skip(i + 1));
        if let Some(port) = port_from_hostname(nodes[i].hostname.as_str()) {
            return Some(
                CenterDiscoveryResult { virtual_ip: nodes[i].virtual_ip.clone(), port },
            );
        }
    }
    None
}

// ---------------------------------------------------------------------------------------
// The search
// ---------------------------------------------------------------------------------------
/// The search for a center: it scans the network, and waits between two scans.
pub struct Discovery {
    scans: u32,
}

/// What happened in the search.
pub enum DiscoveryEvent {
    /// A scan found these nodes.
    Scanned(Vec<EasyTierNode>),
    /// The wait after a scan is over.
    Waited,
    /// The search was cancelled, during a scan or a wait.
    Cancelled,
}

/// What to do next in the search.
pub enum DiscoveryAction {
    /// Scan the network, or stop scanning when the search is cancelled.
    Scan,
    /// Wait for [`DISCOVERY_INTERVAL_MS`], or until the search is cancelled.
    Wait,
    /// The center is found.
    Found(CenterDiscoveryResult),
    /// The search is over without success.
    Fail(ScaffoldingError),
}

/// The error for a search that was cancelled.
pub open spec fn cancelled_error() -> ErrorView {
    ErrorView::CenterNotFound("中心发现已取消"@)
}

fn cancelled_failure() -> (action: DiscoveryAction)
    ensures
        action matches DiscoveryAction::Fail(error) && error@ == cancelled_error(),
{
    DiscoveryAction::Fail(ScaffoldingError::CenterNotFound("中心发现已取消".to_owned()))
}

/// What follows an event in the search, by the number of scans that were made before it: the
/// number after it, and what to do.
pub open spec fn search_stepped(
    before: nat,
    event: DiscoveryEvent,
    after: nat,
    action: DiscoveryAction,
) -> bool {
    match event {
        DiscoveryEvent::Scanned(nodes) => {
            &&& after == if before < DISCOVERY_SCANS {
                before + 1
            } else {
                before
            }
            &&& match center_among(node_views(nodes@)) {
                Some(center) => action matches DiscoveryAction::Found(found) && found@ == center,
                None => action is Wait,
            }
        },
        DiscoveryEvent::Waited => {
            &&& after == before
            &&& if before < DISCOVERY_SCANS {
                action is Scan
            } else {
                action matches DiscoveryAction::Fail(error) && error@
                    == ErrorView::CenterNotFound("未在 EasyTier 网络中发现联机中心（超时 30s）"@)
            }
        },
        DiscoveryEvent::Cancelled => {
            &&& after == before
            &&& action matches DiscoveryAction::Fail(error) && error@ == cancelled_error()
        },
    }
}

impl Discovery {
    /// How many scans were made.
    pub closed spec fn scans(&self) -> nat {
        self.scans as nat
    }

    #[verifier::type_invariant]
    spec fn bounded(self) -> bool {
        self.scans <= DISCOVERY_SCANS
    }

    /// A search that is about to scan for the first time.
    pub fn new() -> (search: Self)
        ensures
            search.scans() == 0,
    {
        Discovery { scans: 0 }
    }

    /// What to do first, where the search is or is not cancelled already. A cancelled search does
    /// not scan.
    pub fn begin(&self, cancelled: bool) -> (action: DiscoveryAction)
        ensures
            if cancelled {
                action matches DiscoveryAction::Fail(error) && error@ == cancelled_error()
            } else {
                action is Scan
            },
    {
        if cancelled {
            cancelled_failure()
        } else {
            DiscoveryAction::Scan
        }
    }

    /// What follows an event. A search that made all of its scans is given up when the wait
    /// after the last one is over.
    pub fn step(&mut self, event: DiscoveryEvent) -> (action: DiscoveryAction)
        ensures
            search_stepped(old(self).scans(), event, final(self).scans(), action),
    {
        proof {
            use_type_invariant(&*self);
        }
        match event {
            DiscoveryEvent::Scanned(nodes) => {
                if self.scans < DISCOVERY_SCANS {
                    self.scans = self.scans + 1;
                }
                match try_parse_center(nodes.as_slice()) {
                    Some(center) => DiscoveryAction::Found(center),
                    None => DiscoveryAction::Wait,
                }
            },
            DiscoveryEvent::Waited => if self.scans < DISCOVERY_SCANS {
                DiscoveryAction::Scan
            } else {
                DiscoveryAction::Fail(
                    ScaffoldingError::CenterNotFound(
                        "未在 EasyTier 网络中发现联机中心（超时 30s）".to_owned(),
                    ),
                )
            },
            DiscoveryEvent::Cancelled => cancelled_failure(),
        }
    }
}

// ---------------------------------------------------------------------------------------
// Laws
// ---------------------------------------------------------------------------------------
/// A center's host name tells the port that the name was made for, where it is above 1024.
pub proof fn center_hostname_tells_the_port(port: u16)
    requires
        port > 1024,
    ensures
        hostname_port(center_hostname(port)) == Some(port),
{
    text::decimal_roundtrip(port as nat);
    let prefix = CENTER_HOSTNAME_PREFIX@;
    let name = center_hostname(port);
    assert(name.skip(prefix.len() as int) =~= text::decimal(port as nat));
    assert(name.subrange(0, prefix.len() as int) =~= prefix);
}

/// A scan is only made while there are scans left, and uses one of them: the search ends.
pub proof fn search_is_bounded(
    before: nat,
    event: DiscoveryEvent,
    between: nat,
    action: DiscoveryAction,
    scan: DiscoveryEvent,
    after: nat,
    result: DiscoveryAction,
)
    requires
        search_stepped(before, event, between, action),
        action is Scan,
        scan is Scanned,
        search_stepped(between, scan, after, result),
    ensures
        before < DISCOVERY_SCANS,
        after == before + 1,
{
}

/// Nodes that are no center do not hide a center behind them.
pub proof fn center_is_found_behind_others(before: Seq<NodeView>, center: NodeView, after: Seq<NodeView>)
    requires
        forall|i: int|
            0 <= i < before.len() ==> hostname_port(#[trigger] before[i].hostname) is None,
        hostname_port(center.hostname) is Some,
    ensures
        center_among(before.push(center) + after) == Some(
            CenterView {
                virtual_ip: center.virtual_ip,
                port: hostname_port(center.hostname)->0,
            },
        ),
    decreases before.len(),
{
    let all = before.push(center) + after;
    if before.len() > 0 {
        assert(all[0] == before[0]);
        assert(hostname_port(before[0].hostname) is None);
        assert forall|i: int| 0 <= i < before.skip(1).len() implies hostname_port(
            #[trigger] before.skip(1)[i].hostname,
        ) is None by {
            assert(hostname_port(before[i + 1].hostname) is None);
        }
        center_is_found_behind_others(before.skip(1), center, after);
        assert(all.skip(1) =~= before.skip(1).push(center) + after);
    } else {
        assert(all[0] == center);
    }
}

/// A host name tells a port exactly where it is the prefix and one or more digits, and nothing
/// else, and their number is above 1024 and a port; it then tells that number.
pub proof fn hostname_is_prefix_and_port(digits: Seq<char>, hostname: Seq<char>)
    ensures
        digits.len() > 0 && text::all_digits(digits) && 1024 < text::decimal_value(digits)
            <= 65535 ==> hostname_port("scaffolding-mc-server-"@ + digits) == Some(
            text::decimal_value(digits) as u16,
        ),
        text::decimal_value(digits) <= 1024 || text::decimal_value(digits) > 65535
            || digits.len() == 0 || !text::all_digits(digits) ==> hostname_port(
            "scaffolding-mc-server-"@ + digits,
        ) is None,
        hostname_port(hostname) matches Some(port) ==> port > 1024 && exists|rest: Seq<char>|
            {
                &&& hostname == #[trigger] ("scaffolding-mc-server-"@ + rest)
                &&& rest.len() > 0
                &&& text::all_digits(rest)
                &&& text::decimal_value(rest) == port
            },
{
    let prefix = "scaffolding-mc-server-"@;
    let whole = prefix + digits;
    assert(whole.subrange(0, prefix.len() as int) =~= prefix);
    assert(whole.skip(prefix.len() as int) =~= digits);
    if let Some(port) = hostname_port(hostname) {
        let rest = hostname.skip(prefix.len() as int);
        assert(hostname =~= prefix + rest);
    }
}

/// A center is found exactly where one of the nodes has a host name that tells a port. It is the
/// first such node, with its own address and the port that its name tells.
pub proof fn first_center_is_found(nodes: Seq<NodeView>)
    ensures
        match center_among(nodes) {
            Some(center) => exists|i: int|
                {
                    &&& 0 <= i < nodes.len()
                    &&& hostname_port((#[trigger] nodes[i]).hostname) == Some(center.port)
                    &&& nodes[i].virtual_ip == center.virtual_ip
                    &&& forall|j: int|
                        0 <= j < i ==> hostname_port((#[trigger] nodes[j]).hostname) is None
                },
            None => forall|i: int|
                0 <= i < nodes.len() ==> hostname_port((#[trigger] nodes[i]).hostname) is None,
        },
    decreases nodes.len(),
{
    if nodes.len() > 0 {
        let rest = nodes.skip(1);
        if hostname_port(nodes[0].hostname) is None {
            first_center_is_found(rest);
            match center_among(rest) {
                Some(center) => {
                    let i = choose|i: int|
                        {
                            &&& 0 <= i < rest.len()
                            &&& hostname_port((#[trigger] rest[i]).hostname) == Some(center.port)
                            &&& rest[i].virtual_ip == center.virtual_ip
                            &&& forall|j: int|
                                0 <= j < i ==> hostname_port((#[trigger] rest[j]).hostname) is None
                        };
                    assert(nodes[i + 1] == rest[i]);
                    assert forall|j: int| 0 <= j < i + 1 implies hostname_port(
                        (#[trigger] nodes[j]).hostname,
                    ) is None by {
                        if j > 0 {
                            assert(nodes[j] == rest[j - 1]);
                        }
                    }
                },
                None => {
                    assert forall|i: int| 0 <= i < nodes.len() implies hostname_port(
                        (#[trigger] nodes[i]).hostname,
                    ) is None by {
                        if i > 0 {
                            assert(nodes[i] == rest[i - 1]);
                        }
                    }
                },
            }
        } else {
            assert(hostname_port(nodes[0].hostname) is Some);
        }
    }
}

/// A search ends with the first scan that shows a center; without one it waits, and scans again
/// until it made sixty scans, behind the last of which it reports that there is no center. A
/// cancellation ends it at any time.
pub proof fn search_makes_sixty_scans(
    before: nat,
    event: DiscoveryEvent,
    after: nat,
    action: DiscoveryAction,
)
    requires
        search_stepped(before, event, after, action),
    ensures
        event matches DiscoveryEvent::Scanned(nodes) ==> match center_among(node_views(nodes@)) {
            Some(center) => action matches DiscoveryAction::Found(found) && found.virtual_ip@
                == center.virtual_ip && found.port == center.port,
            None => action is Wait,
        },
        event is Scanned && before < 60 ==> after == before + 1,
        !(event is Scanned) ==> after == before,
        event is Waited && before < 60 ==> action is Scan,
        event is Waited && before >= 60 ==> (action matches DiscoveryAction::Fail(error) && error@
            == ErrorView::CenterNotFound("未在 EasyTier 网络中发现联机中心（超时 30s）"@)),
        event is Cancelled ==> (action matches DiscoveryAction::Fail(error) && error@
            == ErrorView::CenterNotFound("中心发现已取消"@)),
{
}

/// The scans and the waits behind them take the thirty seconds that the error speaks of.
pub proof fn search_takes_thirty_seconds()
    ensures
        DISCOVERY_SCANS * DISCOVERY_INTERVAL_MS == 30_000,
{
}

} // verus!
