//! Port forwards, and how one is added to a running instance.
use vstd::prelude::*;

use crate::easytier::addresses;
use crate::error;
use crate::error::{ErrorView, ScaffoldingError};
use crate::json;
use crate::json::{Json, JsonValue};
use crate::text;
use crate::util;

verus! {

/// The address of a socket.
#[derive(Debug, Clone, Copy)]
pub enum SocketAddress {
    /// The octets of an IPv4 address, and a port.
    V4([u8; 4], u16),
    /// The octets of an IPv6 address, its scope, and a port.
    V6([u8; 16], u32, u16),
}

/// A port forward: its protocol, where it listens and where it leads.
#[derive(Debug)]
pub struct PortForward {
    pub proto: String,
    pub bind: SocketAddress,
    pub target: SocketAddress,
}

/// What a port forward holds.
#[verifier::ext_equal]
pub struct ForwardView {
    pub proto: Seq<char>,
    pub bind: SocketAddress,
    pub target: SocketAddress,
}

impl View for PortForward {
    type V = ForwardView;

    open spec fn view(&self) -> ForwardView {
        ForwardView { proto: self.proto@, bind: self.bind, target: self.target }
    }
}

/// The parts of a port forward that is written as `protocol://bind-address/target-address`.
pub open spec fn forward_parts(raw: Seq<char>) -> Option<(Seq<char>, Seq<char>, Seq<char>)> {
    let mark = text::first_place(raw, "://"@, 0);
    if mark > raw.len() {
        None
    } else {
        let rest = raw.skip(mark + 3);
        let slash = text::first_from(rest, '/', 0);
        if slash < rest.len() {
            Some((raw.take(mark), rest.take(slash), rest.skip(slash + 1)))
        } else {
            None
        }
    }
}

/// A port forward, given what its two addresses were read as.
pub open spec fn parsed_forward(
    raw: Seq<char>,
    bind: Option<SocketAddress>,
    target: Option<SocketAddress>,
) -> Result<ForwardView, ErrorView> {
    match forward_parts(raw) {
        None => Err(ErrorView::EasyTierStart("无效的端口转发格式: "@ + raw)),
        Some((proto, bind_text, target_text)) => match (bind, target) {
            (None, _) => Err(
                ErrorView::EasyTierStart("无效的端口转发绑定地址: "@ + bind_text),
            ),
            (_, None) => Err(
                ErrorView::EasyTierStart("无效的端口转发目标地址: "@ + target_text),
            ),
            (Some(b), Some(t)) => Ok(ForwardView { proto, bind: b, target: t }),
        },
    }
}

/// The parts of a port forward: its protocol, the address where it listens and the one where
/// it leads.
pub fn split_forward(raw: &str) -> (parts: Option<(String, String, String)>)
    ensures
        match parts {
            Some(p) => forward_parts(raw@) == Some((p.0@, p.1@, p.2@)),
            None => forward_parts(raw@) is None,
        },
{
    proof {
        reveal_strlit("://");
    }
    let chars = text::chars_of(raw);
    let size: usize = chars.len();
    let mark: usize = match text::find_text(&chars, &text::chars_of("://")) {
        Some(place) => place,
        None => return None,
    };
    let proto = text::string_between(&chars, 0, mark);
    assert(proto@ =~= raw@.take(mark as int));
    let rest_string = text::string_between(&chars, mark + 3, size);
    assert(rest_string@ =~= raw@.skip(mark + 3));
    let rest = text::chars_of(rest_string.as_str());
    let slash: usize = text::find_from(&rest, '/', 0);
    if slash < rest.len() {
        let bind = text::string_between(&rest, 0, slash);
        let target = text::string_between(&rest, slash + 1, rest.len());
        assert(bind@ =~= rest@.take(slash as int));
        assert(target@ =~= rest@.skip(slash + 1));
        Some((proto, bind, target))
    } else {
        None
    }
}

/// A port forward, given what its two addresses were read as.
pub fn parse_port_forward(
    raw: &str,
    bind: Option<SocketAddress>,
    target: Option<SocketAddress>,
) -> (forward: Result<PortForward, ScaffoldingError>)
    ensures
        error::outcome(forward) == parsed_forward(raw@, bind, target),
{
    let (proto, bind_text, target_text) = match split_forward(raw) {
        Some(parts) => parts,
        None => {
            return Err(ScaffoldingError::EasyTierStart(text::concat("无效的端口转发格式: ", raw)));
        },
    };
    let bind = match bind {
        Some(address) => address,
        None => {
            return Err(
                ScaffoldingError::EasyTierStart(
                    text::concat("无效的端口转发绑定地址: ", bind_text.as_str()),
                ),
            );
        },
    };
    let target = match target {
        Some(address) => address,
        None => {
            return Err(
                ScaffoldingError::EasyTierStart(
                    text::concat("无效的端口转发目标地址: ", target_text.as_str()),
                ),
            );
        },
    };
    Ok(PortForward { proto, bind, target })
}

/// The text of a port forward over TCP from a port of this machine to a port of a node.
pub open spec fn forward_text(local_port: u16, ip: Seq<char>, port: u16) -> Seq<char> {
    "tcp://127.0.0.1:"@ + text::decimal(local_port as nat) + "/"@ + ip + ":"@ + text::decimal(
        port as nat,
    )
}

/// The text of a port forward over TCP from a port of this machine to a port of a node.
pub fn forward_to(local_port: u16, ip: &str, port: u16) -> (forward: String)
    ensures
        forward@ == forward_text(local_port, ip@, port),
{
    let mut forward = text::concat("tcp://127.0.0.1:", text::decimal_text(local_port as u64).as_str());
    forward.append("/");
    forward.append(ip);
    forward.append(":");
    forward.append(text::decimal_text(port as u64).as_str());
    forward
}

// ---------------------------------------------------------------------------------------
// Adding a port forward to a running instance
// ---------------------------------------------------------------------------------------
/// A value under a name.
pub open spec fn json_member(name: Seq<char>, value: Json) -> (Seq<char>, Json) {
    (name, value)
}

/// The address of a socket in the form of the management interface.
pub open spec fn address_json(octets: Seq<u8>, port: u16) -> Json {
    Json::Object(
        seq![
            json_member(
                "ipv4"@,
                Json::Object(
                    seq![
                        json_member(
                            "addr"@,
                            Json::Signed(addresses::address_number(octets) as i64),
                        ),
                    ],
                ),
            ),
            json_member("port"@, Json::Signed(port as i64)),
        ],
    )
}

/// The change that adds a port forward, in the form of the management interface.
pub open spec fn forward_patch(
    proto: Seq<char>,
    bind: Seq<u8>,
    bind_port: u16,
    target: Seq<u8>,
    target_port: u16,
) -> Json {
    let socket_type = if proto == "udp"@ {
        "UDP"@
    } else {
        "TCP"@
    };
    let cfg = Json::Object(
        seq![
            json_member("bind_addr"@, address_json(bind, bind_port)),
            json_member("dst_addr"@, address_json(target, target_port)),
            json_member("socket_type"@, Json::Text(socket_type)),
        ],
    );
    let change = Json::Object(
        seq![json_member("action"@, Json::Text("ADD"@)), json_member("cfg"@, cfg)],
    );
    Json::Object(
        seq![
            json_member(
                "patch"@,
                Json::Object(seq![json_member("port_forwards"@, Json::Array(seq![change]))]),
            ),
        ],
    )
}

/// The change that adds a port forward, given what its two addresses were read as: both have
/// to be IPv4 addresses.
pub open spec fn patch_for(
    raw: Seq<char>,
    bind: Option<SocketAddress>,
    target: Option<SocketAddress>,
) -> Result<Json, ErrorView> {
    match parsed_forward(raw, bind, target) {
        Err(error) => Err(error),
        Ok(forward) => match (forward.bind, forward.target) {
            (SocketAddress::V4(b, bp), SocketAddress::V4(t, tp)) => Ok(
                forward_patch(forward.proto, b@, bp, t@, tp),
            ),
            _ => Err(ErrorView::EasyTierStart("端口转发仅支持 IPv4 地址: "@ + raw)),
        },
    }
}

fn object_of_one(name: &str, value: JsonValue) -> (object: JsonValue)
    ensures
        object@ == Json::Object(seq![json_member(name@, value@)]),
{
    let mut members: Vec<(String, JsonValue)> = Vec::new();
    members.push((name.to_owned(), value));
    let object = JsonValue::Object(members);
    assert(object@->Object_0 =~= seq![json_member(name@, value@)]);
    object
}

fn with_member(object: JsonValue, name: &str, value: JsonValue) -> (extended: JsonValue)
    requires
        object@ is Object,
    ensures
        extended@ == Json::Object(object@->Object_0.push(json_member(name@, value@))),
{
    match object {
        JsonValue::Object(members) => {
            let ghost before = JsonValue::Object(members)@->Object_0;
            let mut members = members;
            members.push((name.to_owned(), value));
            let extended = JsonValue::Object(members);
            assert(extended@->Object_0 =~= before.push(json_member(name@, value@)));
            extended
        },
        other => other,
    }
}

fn array_of_one(value: JsonValue) -> (array: JsonValue)
    ensures
        array@ == Json::Array(seq![value@]),
{
    let mut items: Vec<JsonValue> = Vec::new();
    items.push(value);
    let array = JsonValue::Array(items);
    assert(array@->Array_0 =~= seq![value@]);
    array
}

fn address_value(octets: &[u8; 4], port: u16) -> (value: JsonValue)
    ensures
        value@ == address_json(octets@, port),
{
    let number: u32 = addresses::ipv4_to_u32(util::dotted_text(octets).as_str());
    proof {
        addresses::dotted_address_is_packed(octets@);
    }
    let ipv4 = object_of_one("addr", JsonValue::Signed(number as i64));
    let first = object_of_one("ipv4", ipv4);
    let value = with_member(first, "port", JsonValue::Signed(port as i64));
    assert(value@->Object_0 =~= address_json(octets@, port)->Object_0);
    value
}

/// The change that adds a port forward to a running instance.
pub fn port_forward_patch(
    raw: &str,
    bind: Option<SocketAddress>,
    target: Option<SocketAddress>,
) -> (patch: Result<JsonValue, ScaffoldingError>)
    ensures
        error::outcome(patch) == patch_for(raw@, bind, target),
{
    let forward = match parse_port_forward(raw, bind, target) {
        Ok(forward) => forward,
        Err(error) => return Err(error),
    };
    match (forward.bind, forward.target) {
        (SocketAddress::V4(b, bp), SocketAddress::V4(t, tp)) => {
            let socket_type = if text::same_text(forward.proto.as_str(), "udp") {
                "UDP".to_owned()
            } else {
                "TCP".to_owned()
            };
            let first = object_of_one("bind_addr", address_value(&b, bp));
            let second = with_member(first, "dst_addr", address_value(&t, tp));
            let cfg = with_member(second, "socket_type", JsonValue::Text(socket_type));
            assert(cfg@->Object_0 =~= seq![
                json_member("bind_addr"@, address_json(b@, bp)),
                json_member("dst_addr"@, address_json(t@, tp)),
                json_member("socket_type"@, Json::Text(socket_type@)),
            ]);
            let action = object_of_one("action", JsonValue::Text("ADD".to_owned()));
            let change = with_member(action, "cfg", cfg);
            assert(change@->Object_0 =~= seq![
                json_member("action"@, Json::Text("ADD"@)),
                json_member("cfg"@, cfg@),
            ]);
            let list = object_of_one("port_forwards", array_of_one(change));
            Ok(object_of_one("patch", list))
        },
        _ => Err(
            ScaffoldingError::EasyTierStart(text::concat("端口转发仅支持 IPv4 地址: ", raw)),
        ),
    }
}

// ---------------------------------------------------------------------------------------
// Laws
// ---------------------------------------------------------------------------------------
/// A port forward that the library writes reads back as its parts.
pub proof fn written_forward_reads_back(local_port: u16, ip: Seq<char>, port: u16)
    ensures
        forward_parts(forward_text(local_port, ip, port)) == Some(
            (
                "tcp"@,
                "127.0.0.1:"@ + text::decimal(local_port as nat),
                ip + ":"@ + text::decimal(port as nat),
            ),
        ),
{
    reveal_strlit("tcp://127.0.0.1:");
    reveal_strlit("tcp");
    reveal_strlit("://");
    reveal_strlit("127.0.0.1:");
    reveal_strlit("/");
    let raw = forward_text(local_port, ip, port);
    let local = text::decimal(local_port as nat);
    let bind = "127.0.0.1:"@ + local;
    let target = ip + ":"@ + text::decimal(port as nat);
    assert(raw.subrange(3, 6) =~= "://"@);
    assert(text::stands_at(raw, "://"@, 3));
    assert forall|j: int| 0 <= j < 3 implies !#[trigger] text::stands_at(raw, "://"@, j) by {
        if text::stands_at(raw, "://"@, j) {
            assert(raw.subrange(j, j + 3)[0] == ':');
            assert(raw[j] == ':');
        }
    }
    text::first_place_is(raw, "://"@, 0, 3);
    assert(raw.take(3) =~= "tcp"@);
    let rest = raw.skip(6);
    assert(rest =~= bind.push('/') + target);
    addresses::digits_hold_no('/', local_port as nat);
    assert forall|j: int| 0 <= j < bind.len() implies rest[j] != '/' by {
        if j >= 10 {
            assert(local.contains(local[j - 10]));
        }
    }
    text::first_is(rest, '/', 0, bind.len() as int);
    assert(rest.take(bind.len() as int) =~= bind);
    assert(rest.skip(bind.len() as int + 1) =~= target);
}

/// A port forward is read as the three parts that it is written from, whatever they are, where
/// the protocol holds no colon and the first address no slash. One without `://`, or without a
/// slash behind it, is none.
pub proof fn forward_is_its_parts(proto: Seq<char>, bind: Seq<char>, target: Seq<char>)
    requires
        !proto.contains(':'),
        !bind.contains('/'),
    ensures
        forward_parts(proto + "://"@ + bind + "/"@ + target) == Some((proto, bind, target)),
        forward_parts(proto + "://"@ + bind) is None,
        forward_parts(proto) is None,
{
    reveal_strlit("://");
    reveal_strlit("/");
    let whole = proto + "://"@ + bind + "/"@ + target;
    let short = proto + "://"@ + bind;
    let mark = proto.len() as int;
    assert(whole.subrange(mark, mark + 3) =~= "://"@);
    assert(short.subrange(mark, mark + 3) =~= "://"@);
    assert forall|j: int| 0 <= j < mark implies !#[trigger] text::stands_at(whole, "://"@, j)
        by {
        if text::stands_at(whole, "://"@, j) {
            assert(whole.subrange(j, j + 3)[0] == ':');
            assert(proto.contains(proto[j]));
        }
    }
    assert forall|j: int| 0 <= j < mark implies !#[trigger] text::stands_at(short, "://"@, j)
        by {
        if text::stands_at(short, "://"@, j) {
            assert(short.subrange(j, j + 3)[0] == ':');
            assert(proto.contains(proto[j]));
        }
    }
    text::first_place_is(whole, "://"@, 0, mark);
    text::first_place_is(short, "://"@, 0, mark);
    assert(whole.take(mark) =~= proto);
    let rest = whole.skip(mark + 3);
    assert(rest =~= bind + "/"@ + target);
    assert(short.skip(mark + 3) =~= bind);
    assert forall|j: int| 0 <= j < bind.len() implies bind[j] != '/' by {
        assert(bind.contains(bind[j]));
    }
    assert forall|j: int| 0 <= j < bind.len() implies rest[j] != '/' by {
        assert(rest[j] == bind[j]);
    }
    text::first_is(rest, '/', 0, bind.len() as int);
    text::first_is(bind, '/', 0, bind.len() as int);
    assert(rest.take(bind.len() as int) =~= bind);
    assert(rest.skip(bind.len() as int + 1) =~= target);
    nowhere_without_a_colon(proto, 0);
}

proof fn nowhere_without_a_colon(s: Seq<char>, from: int)
    requires
        !s.contains(':'),
        0 <= from <= s.len() + 1,
    ensures
        text::first_place(s, "://"@, from) == s.len() + 1,
    decreases s.len() + 1 - from,
{
    reveal_strlit("://");
    if from <= s.len() {
        if text::stands_at(s, "://"@, from) {
            assert(s.subrange(from, from + 3)[0] == ':');
            assert(s.contains(s[from]));
        }
        nowhere_without_a_colon(s, from + 1);
    }
}

/// A port forward of the right form is accepted exactly where both of its addresses could be
/// read, and then listens and leads where they say; else the first of the two that could not be
/// read is reported. One of the wrong form is reported as it stands.
pub proof fn forward_goes_where_it_says(
    raw: Seq<char>,
    bind: Option<SocketAddress>,
    target: Option<SocketAddress>,
)
    ensures
        match forward_parts(raw) {
            Some((proto, bind_text, target_text)) => match parsed_forward(raw, bind, target) {
                Ok(forward) => {
                    &&& forward.proto == proto
                    &&& bind == Some(forward.bind)
                    &&& target == Some(forward.target)
                },
                Err(error) => if bind is None {
                    error == ErrorView::EasyTierStart("无效的端口转发绑定地址: "@ + bind_text)
                } else {
                    &&& target is None
                    &&& error == ErrorView::EasyTierStart(
                        "无效的端口转发目标地址: "@ + target_text,
                    )
                },
            },
            None => parsed_forward(raw, bind, target) == Err::<ForwardView, ErrorView>(
                ErrorView::EasyTierStart("无效的端口转发格式: "@ + raw),
            ),
        },
{
}

/// Whether a JSON value is the address of a socket: the number of the IPv4 address under `ipv4`
/// and `addr`, most significant octet first, and the port under `port`.
pub open spec fn tells_address(value: Json, octets: Seq<u8>, port: u16) -> bool {
    &&& value.get("ipv4"@) matches Some(ipv4) && ipv4.get("addr"@) == Some(
        Json::Signed(
            (octets[0] * 0x100_0000 + octets[1] * 0x1_0000 + octets[2] * 0x100 + octets[3]) as i64,
        ),
    )
    &&& value.get("port"@) == Some(Json::Signed(port as i64))
}

proof fn address_tells_itself(octets: Seq<u8>, port: u16)
    ensures
        tells_address(address_json(octets, port), octets, port),
{
    reveal_strlit("ipv4");
    reveal_strlit("addr");
    reveal_strlit("port");
    reveal_with_fuel(json::member, 3);
    assert("ipv4"@[0] != "port"@[0]);
    let value = address_json(octets, port);
    let members = value->Object_0;
    assert(members[0].0 == "ipv4"@ && members[1].0 == "port"@);
    assert(members.skip(1)[0] == members[1]);
    assert(value.get("port"@) == Some(Json::Signed(port as i64)));
    let ipv4 = members[0].1;
    assert(value.get("ipv4"@) == Some(ipv4));
    assert(ipv4->Object_0[0].0 == "addr"@);
}

/// The change that adds a port forward to a running instance asks to add one forward, which
/// listens at the first address and leads to the second, over UDP where the forward is written
/// so and over TCP else. It is made exactly for forwards that are right and whose addresses are
/// both IPv4 addresses.
pub proof fn change_adds_the_forward(
    raw: Seq<char>,
    bind: Option<SocketAddress>,
    target: Option<SocketAddress>,
)
    ensures
        patch_for(raw, bind, target) is Ok <==> {
            &&& forward_parts(raw) is Some
            &&& bind matches Some(SocketAddress::V4(_, _))
            &&& target matches Some(SocketAddress::V4(_, _))
        },
        patch_for(raw, bind, target) matches Ok(patch) ==> {
            let proto = (forward_parts(raw)->Some_0).0;
            let b = bind->0;
            let t = target->0;
            &&& patch.get("patch"@) matches Some(inner) && {
                &&& inner.get("port_forwards"@) matches Some(Json::Array(changes)) && {
                    &&& changes.len() == 1
                    &&& changes[0].get("action"@) == Some(Json::Text("ADD"@))
                    &&& changes[0].get("cfg"@) matches Some(cfg) && {
                        &&& cfg.get("bind_addr"@) matches Some(address) && tells_address(
                            address,
                            b->V4_0@,
                            b->V4_1,
                        )
                        &&& cfg.get("dst_addr"@) matches Some(address) && tells_address(
                            address,
                            t->V4_0@,
                            t->V4_1,
                        )
                        &&& cfg.get("socket_type"@) == Some(
                            Json::Text(
                                if proto == "udp"@ {
                                    "UDP"@
                                } else {
                                    "TCP"@
                                },
                            ),
                        )
                    }
                }
            }
        },
        forward_parts(raw) is Some && bind is Some && target is Some ==> (patch_for(
            raw,
            bind,
            target,
        ) matches Err(error) ==> error == ErrorView::EasyTierStart(
            "端口转发仅支持 IPv4 地址: "@ + raw,
        )),
{
    if let Ok(patch) = patch_for(raw, bind, target) {
        let proto = (forward_parts(raw)->Some_0).0;
        let (b, bp) = (bind->0->V4_0, bind->0->V4_1);
        let (t, tp) = (target->0->V4_0, target->0->V4_1);
        address_tells_itself(b@, bp);
        address_tells_itself(t@, tp);
        reveal_strlit("bind_addr");
        reveal_strlit("dst_addr");
        reveal_strlit("socket_type");
        reveal_strlit("action");
        reveal_strlit("cfg");
        reveal_with_fuel(json::member, 4);
        let inner = patch->Object_0[0].1;
        assert(patch->Object_0[0].0 == "patch"@);
        assert(patch.get("patch"@) == Some(inner));
        assert(inner->Object_0[0].0 == "port_forwards"@);
        let list = inner->Object_0[0].1;
        assert(inner.get("port_forwards"@) == Some(list));
        let change = list->Array_0[0];
        let fields = change->Object_0;
        assert(fields[0].0 == "action"@ && fields[1].0 == "cfg"@);
        assert("action"@.len() == 6 && "cfg"@.len() == 3);
        assert(fields.skip(1)[0] == fields[1]);
        let cfg = fields[1].1;
        assert(change.get("cfg"@) == Some(cfg));
        let parts = cfg->Object_0;
        assert("bind_addr"@.len() == 9 && "dst_addr"@.len() == 8 && "socket_type"@.len() == 11);
        assert(parts[0].0 == "bind_addr"@ && parts[1].0 == "dst_addr"@);
        assert(parts[2].0 == "socket_type"@);
        assert(parts.skip(1)[0] == parts[1]);
        assert(parts.skip(1).skip(1)[0] == parts[2]);
        assert(cfg.get("bind_addr"@) == Some(parts[0].1));
        assert(cfg.get("dst_addr"@) == Some(parts[1].1));
        assert(cfg.get("socket_type"@) == Some(parts[2].1));
    }
}

} // verus!
