//! The guests that are connected to a center: who they are, when they were last heard of, and
//! how their requests are answered.
use vstd::prelude::*;

use crate::center::table;
use crate::center::table::Table;
use crate::error::ErrorView;
use crate::json;
use crate::json::{Json, JsonValue};
use crate::models::protocol::{ProtocolRequest, ProtocolResponse, RequestView, ResponseView};
use crate::protocols;
use crate::session::protocol_serializer;
use crate::text;

verus! {

/// How often the center looks for guests that went silent, in seconds.
pub const HEARTBEAT_CHECK_SECS: u64 = 5;

/// How long a guest may stay silent, in nanoseconds.
pub const HEARTBEAT_TIMEOUT_NANOS: u64 = 15_000_000_000;

// ---------------------------------------------------------------------------------------
// The registry
// ---------------------------------------------------------------------------------------
/// The guests that are connected, each under the identifier of its connection. What ends a
/// connection is a value of type `T`.
#[derive(Debug)]
pub struct ClientRegistry<T> {
    last_heartbeat: Table<u64>,
    active_clients: Table<T>,
    client_machine: Table<String>,
    client_ip: Table<String>,
}

/// What a registry holds, each under the identifier of the connection.
#[verifier::ext_equal]
pub struct RegistryView<T> {
    /// From when on the guest's silence counts: its last accepted heartbeat or, where none was
    /// accepted yet, its first refused one.
    pub last_heartbeat: Map<Seq<char>, u64>,
    /// What ends the connection.
    pub active_clients: Map<Seq<char>, T>,
    /// The identifier of the guest's machine.
    pub client_machine: Map<Seq<char>, Seq<char>>,
    /// The address that the guest connected from.
    pub client_ip: Map<Seq<char>, Seq<char>>,
}

impl<T> View for ClientRegistry<T> {
    type V = RegistryView<T>;

    closed spec fn view(&self) -> RegistryView<T> {
        RegistryView {
            last_heartbeat: self.last_heartbeat@,
            active_clients: self.active_clients@,
            client_machine: table::text_map(self.client_machine@),
            client_ip: table::text_map(self.client_ip@),
        }
    }
}

/// Whether a guest whose silence counts from `last` on has been silent for too long at `now`.
pub open spec fn is_silent(last: u64, now: u64) -> bool {
    now - last > HEARTBEAT_TIMEOUT_NANOS
}

/// The machine that a heartbeat names, where it names one; what is no text counts as empty.
pub open spec fn machine_named(root: Json) -> Option<Seq<char>> {
    match root.get("machine_id"@) {
        Some(value) => match value.as_text() {
            Some(machine) => Some(machine),
            None => Some(Seq::empty()),
        },
        None => None,
    }
}

/// Whether a request is a heartbeat.
pub open spec fn is_heartbeat(request: RequestView) -> bool {
    request.key() == "c:player_ping"@
}

/// A request of a connection, its answer and when the answer was written.
#[verifier::ext_equal]
pub struct AnswerView {
    pub request: RequestView,
    pub response: ResponseView,
    pub time: u64,
}

/// Whether none of the answers accepts a heartbeat.
pub open spec fn none_accepted(answers: Seq<AnswerView>) -> bool {
    forall|i: int|
        0 <= i < answers.len() ==> !(is_heartbeat((#[trigger] answers[i]).request)
            && answers[i].response.status == 0)
}

/// When the first heartbeat was answered.
pub open spec fn first_heartbeat(answers: Seq<AnswerView>) -> Option<u64>
    decreases answers.len(),
{
    if answers.len() == 0 {
        None
    } else if is_heartbeat(answers[0].request) {
        Some(answers[0].time)
    } else {
        first_heartbeat(answers.skip(1))
    }
}

impl<T> RegistryView<T> {
    /// Whether a connection is that of a machine.
    pub open spec fn is_machine(self, client: Seq<char>, machine: Seq<char>) -> bool {
        self.client_machine.contains_key(client) && self.client_machine[client] == machine
    }

    /// Whether any connection is that of a machine.
    pub open spec fn knows_machine(self, machine: Seq<char>) -> bool {
        exists|client: Seq<char>| #[trigger] self.is_machine(client, machine)
    }

    /// The machine of a connection, or the empty text where it is not known.
    pub open spec fn machine_or_empty(self, client: Seq<char>) -> Seq<char> {
        if self.client_machine.contains_key(client) {
            self.client_machine[client]
        } else {
            Seq::empty()
        }
    }

    /// Whether a connection's guest went silent.
    pub open spec fn timed_out(self, client: Seq<char>, now: u64) -> bool {
        self.last_heartbeat.contains_key(client) && is_silent(self.last_heartbeat[client], now)
    }

    /// All that is noted of a connection: from when on its guest's silence counts, what ends it,
    /// the guest's machine and the guest's address.
    pub open spec fn of_connection(self, client: Seq<char>) -> (
        Option<u64>,
        Option<T>,
        Option<Seq<char>>,
        Option<Seq<char>>,
    ) {
        (
            self.last_heartbeat.get(client),
            self.active_clients.get(client),
            self.client_machine.get(client),
            self.client_ip.get(client),
        )
    }

    /// The registry with one more connection.
    pub open spec fn registered(self, client: Seq<char>, end: T, ip: Seq<char>) -> Self {
        RegistryView {
            active_clients: self.active_clients.insert(client, end),
            client_ip: self.client_ip.insert(client, ip),
            ..self
        }
    }

    /// The registry without a connection.
    pub open spec fn unregistered(self, client: Seq<char>) -> Self {
        RegistryView {
            last_heartbeat: self.last_heartbeat.remove(client),
            active_clients: self.active_clients.remove(client),
            client_machine: self.client_machine.remove(client),
            client_ip: self.client_ip.remove(client),
        }
    }

    /// The registry after a guest was heard of, with what its heartbeat holds.
    pub open spec fn heard_of(
        self,
        client: Seq<char>,
        now: u64,
        heartbeat: Result<Json, Seq<char>>,
    ) -> Self {
        RegistryView {
            last_heartbeat: self.last_heartbeat.insert(client, now),
            client_machine: match heartbeat {
                Ok(root) => match machine_named(root) {
                    Some(machine) => self.client_machine.insert(client, machine),
                    None => self.client_machine,
                },
                Err(_) => self.client_machine,
            },
            ..self
        }
    }

    /// The registry after a heartbeat was refused: the guest's silence counts from now on, where
    /// it does not count yet.
    pub open spec fn refused(self, client: Seq<char>, now: u64) -> Self {
        if self.last_heartbeat.contains_key(client) {
            self
        } else {
            RegistryView { last_heartbeat: self.last_heartbeat.insert(client, now), ..self }
        }
    }

    /// The registry after a request was answered: only a heartbeat changes it.
    pub open spec fn after_answer(
        self,
        client: Seq<char>,
        request: RequestView,
        response: ResponseView,
        now: u64,
    ) -> Self {
        if !is_heartbeat(request) {
            self
        } else if response.status == 0 {
            self.heard_of(client, now, json::json_parsed(request.body))
        } else {
            self.refused(client, now)
        }
    }

    /// The registry after the requests of a connection were answered, one after the other.
    pub open spec fn after_answers(self, client: Seq<char>, answers: Seq<AnswerView>) -> Self
        decreases answers.len(),
    {
        if answers.len() == 0 {
            self
        } else {
            let last = answers.last();
            self.after_answers(client, answers.drop_last()).after_answer(
                client,
                last.request,
                last.response,
                last.time,
            )
        }
    }
}

/// Whether the connection of a machine was taken out of the active ones, and what ends it was
/// returned. Where several connections are of the machine, it is one of them; where that one is
/// not active, nothing changes.
pub open spec fn machine_disconnected<T>(
    before: RegistryView<T>,
    machine: Seq<char>,
    after: RegistryView<T>,
    end: Option<T>,
) -> bool {
    match end {
        Some(e) => exists|client: Seq<char>|
            {
                &&& #[trigger] before.is_machine(client, machine)
                &&& before.active_clients.contains_key(client)
                &&& e == before.active_clients[client]
                &&& after == (RegistryView {
                    active_clients: before.active_clients.remove(client),
                    ..before
                })
            },
        None => {
            &&& after == before
            &&& before.knows_machine(machine) ==> exists|client: Seq<char>| #[trigger]
                before.is_machine(client, machine) && !before.active_clients.contains_key(client)
        },
    }
}

/// Whether an address is the one that a machine connected from. Where several connections are
/// of the machine, it is that of one of them; where that one has no address, there is none.
pub open spec fn is_source_ip<T>(
    registry: RegistryView<T>,
    machine: Seq<char>,
    ip: Option<Seq<char>>,
) -> bool {
    match ip {
        Some(address) => exists|client: Seq<char>|
            {
                &&& #[trigger] registry.is_machine(client, machine)
                &&& registry.client_ip.contains_key(client)
                &&& registry.client_ip[client] == address
            },
        None => registry.knows_machine(machine) ==> exists|client: Seq<char>| #[trigger]
            registry.is_machine(client, machine) && !registry.client_ip.contains_key(client),
    }
}

/// Whether exactly the connections whose guests went silent were taken out of the active ones,
/// and exactly what ends them was returned, each once.
pub open spec fn silent_removed<T>(
    before: RegistryView<T>,
    now: u64,
    after: RegistryView<T>,
    ends: Seq<T>,
) -> bool {
    let silent = Set::new(|client: Seq<char>| before.timed_out(client, now));
    &&& after.client_machine == before.client_machine
    &&& after.client_ip == before.client_ip
    &&& after.last_heartbeat == before.last_heartbeat.remove_keys(silent)
    &&& after.active_clients == before.active_clients.remove_keys(silent)
    &&& exists|clients: Seq<Seq<char>>|
        {
            &&& #[trigger] clients.no_duplicates()
            &&& clients.len() == ends.len()
            &&& forall|i: int|
                0 <= i < clients.len() ==> before.active_clients.contains_key(
                    #[trigger] clients[i],
                ) && before.active_clients[clients[i]] == ends[i]
            &&& forall|client: Seq<char>|
                clients.contains(client) <==> #[trigger] before.timed_out(client, now)
                    && before.active_clients.contains_key(client)
        }
}

impl<T> ClientRegistry<T> {
    /// A registry without connections.
    pub fn new() -> (registry: Self)
        ensures
            registry@ == (RegistryView {
                last_heartbeat: Map::<Seq<char>, u64>::empty(),
                active_clients: Map::<Seq<char>, T>::empty(),
                client_machine: Map::<Seq<char>, Seq<char>>::empty(),
                client_ip: Map::<Seq<char>, Seq<char>>::empty(),
            }),
    {
        let registry = ClientRegistry {
            last_heartbeat: Table::new(),
            active_clients: Table::new(),
            client_machine: Table::new(),
            client_ip: Table::new(),
        };
        assert(registry@.client_machine =~= Map::<Seq<char>, Seq<char>>::empty());
        assert(registry@.client_ip =~= Map::<Seq<char>, Seq<char>>::empty());
        registry
    }

    /// Enters a connection, with what ends it and the address that it comes from.
    pub fn register(&mut self, client: &str, end: T, ip: &str)
        ensures
            final(self)@ == old(self)@.registered(client@, end, ip@),
    {
        self.active_clients.insert(client, end);
        self.client_ip.insert(client, ip.to_owned());
        assert(self@.client_ip =~= old(self)@.client_ip.insert(client@, ip@));
        assert(self@ =~= old(self)@.registered(client@, end, ip@));
    }

    /// Takes the connection of a machine out of the active ones, and returns what ends it.
    /// Where several connections are of the machine, it is one of them.
    pub fn disconnect_machine(&mut self, machine: &str) -> (end: Option<T>)
        ensures
            machine_disconnected(old(self)@, machine@, final(self)@, end),
    {
        match self.client_machine.key_of(machine) {
            Some(client) => {
                assert(old(self)@.is_machine(client@, machine@));
                let end = self.active_clients.remove(client.as_str());
                if end.is_none() {
                    assert(self@.active_clients =~= old(self)@.active_clients);
                }
                end
            },
            None => None,
        }
    }

    /// The address that a machine connected from.
    pub fn machine_source_ip(&self, machine: &str) -> (ip: Option<String>)
        ensures
            is_source_ip(self@, machine@, text::optional_text(ip)),
    {
        match self.client_machine.key_of(machine) {
            Some(client) => {
                assert(self@.is_machine(client@, machine@));
                match self.client_ip.get(client.as_str()) {
                    Some(address) => Some(address.clone()),
                    None => None,
                }
            },
            None => None,
        }
    }

    /// Notes that a guest was heard of, and the machine that its heartbeat names.
    pub fn note_heartbeat(
        &mut self,
        client: &str,
        now: u64,
        heartbeat: &Result<JsonValue, String>,
    )
        ensures
            final(self)@ == old(self)@.heard_of(
                client@,
                now,
                match *heartbeat {
                    Ok(root) => Ok(root@),
                    Err(message) => Err(message@),
                },
            ),
    {
        self.last_heartbeat.insert(client, now);
        if let Ok(root) = heartbeat {
            if let Some(value) = root.get("machine_id") {
                let machine = match value.as_text() {
                    Some(machine) => machine.to_owned(),
                    None => String::new(),
                };
                let ghost named = machine@;
                self.client_machine.insert(client, machine);
                assert(self@.client_machine =~= old(self)@.client_machine.insert(client@, named));
            }
        }
    }

    /// Notes that a heartbeat was refused: the guest's silence counts from now on, where it does
    /// not count yet.
    pub fn note_refusal(&mut self, client: &str, now: u64)
        ensures
            final(self)@ == old(self)@.refused(client@, now),
    {
        if !self.last_heartbeat.contains(client) {
            self.last_heartbeat.insert(client, now);
        }
    }

    /// Notes that a request was answered. An accepted heartbeat, and nothing else, shows that
    /// the guest is alive; a guest of which none was accepted yet is silent from its first
    /// refused one on.
    pub fn note_answer(
        &mut self,
        client: &str,
        request: &ProtocolRequest,
        response: &ProtocolResponse,
        now: u64,
    )
        ensures
            final(self)@ == old(self)@.after_answer(client@, request@, response@, now),
    {
        let key = request.key();
        if text::same_text(key.as_str(), "c:player_ping") {
            if response.is_success() {
                let heartbeat = json::parse_json(request.body.as_slice());
                self.note_heartbeat(client, now, &heartbeat);
            } else {
                self.note_refusal(client, now);
            }
        }
    }

    /// Takes the guests that have been silent for too long out of the active ones, and returns
    /// what ends their connections.
    pub fn expire(&mut self, now: u64) -> (ends: Vec<T>)
        ensures
            silent_removed(old(self)@, now, final(self)@, ends@),
    {
        let ghost before = self@;
        let keys = self.last_heartbeat.keys();
        let ghost all = text::texts(keys@);
        let mut ends: Vec<T> = Vec::new();
        let ghost mut clients: Seq<Seq<char>> = Seq::empty();
        let ghost gone = |i: int|
            Set::new(|c: Seq<char>| all.take(i).contains(c) && before.timed_out(c, now));
        proof {
            assert(before.last_heartbeat.remove_keys(gone(0)) =~= before.last_heartbeat);
            assert(before.active_clients.remove_keys(gone(0)) =~= before.active_clients);
        }
        for i in 0..keys.len()
            invariant
                before == old(self)@,
                all == text::texts(keys@),
                all.no_duplicates(),
                forall|key: Seq<char>|
                    all.contains(key) <==> #[trigger] before.last_heartbeat.contains_key(key),
                gone == (|n: int|
                    Set::new(|c: Seq<char>| all.take(n).contains(c) && before.timed_out(c, now))),
                self@.client_machine == before.client_machine,
                self@.client_ip == before.client_ip,
                self@.last_heartbeat == before.last_heartbeat.remove_keys(gone(i as int)),
                self@.active_clients == before.active_clients.remove_keys(gone(i as int)),
                clients.no_duplicates(),
                clients.len() == ends@.len(),
                forall|j: int|
                    0 <= j < clients.len() ==> before.active_clients.contains_key(
                        #[trigger] clients[j],
                    ) && before.active_clients[clients[j]] == ends@[j],
                forall|c: Seq<char>| #[trigger]
                    clients.contains(c) <==> gone(i as int).contains(c)
                        && before.active_clients.contains_key(c),
        {
            let client = keys[i].as_str();
            let ghost id = all[i as int];
            assert(client@ == id);
            assert(all.contains(id));
            assert(!all.take(i as int).contains(id)) by {
                if all.take(i as int).contains(id) {
                    let j = choose|j: int| 0 <= j < i && all.take(i as int)[j] == id;
                    assert(all[j] == all[i as int]);
                }
            }
            assert(forall|c: Seq<char>|
                all.take(i + 1).contains(c) <==> all.take(i as int).contains(c) || c == id) by {
                assert(all.take(i + 1) =~= all.take(i as int).push(id));
                assert forall|c: Seq<char>|
                    all.take(i + 1).contains(c) <==> all.take(i as int).contains(c) || c == id by {
                    let less = all.take(i as int);
                    if less.contains(c) {
                        let j = choose|j: int| 0 <= j < less.len() && less[j] == c;
                        assert(less.push(id)[j] == c);
                    }
                    if c == id {
                        assert(less.push(id)[i as int] == c);
                    }
                }
            }
            let silent = match self.last_heartbeat.get(client) {
                Some(last) => *last < now && now - *last > HEARTBEAT_TIMEOUT_NANOS,
                None => false,
            };
            assert(silent == before.timed_out(id, now));
            if silent {
                let _ = self.last_heartbeat.remove(client);
                let end = self.active_clients.remove(client);
                let ghost earlier = clients;
                if let Some(e) = end {
                    ends.push(e);
                    proof {
                        clients = clients.push(id);
                    }
                    assert(!earlier.contains(id));
                }
                assert(gone(i + 1) =~= gone(i as int).insert(id));
                assert(forall|c: Seq<char>| #[trigger]
                    clients.contains(c) <==> gone(i + 1).contains(c)
                        && before.active_clients.contains_key(c)) by {
                    assert forall|c: Seq<char>| #[trigger]
                        clients.contains(c) <==> gone(i + 1).contains(c)
                            && before.active_clients.contains_key(c) by {
                        assert(earlier.contains(c) <==> gone(i as int).contains(c)
                            && before.active_clients.contains_key(c));
                        if clients.len() > earlier.len() {
                            assert(clients[earlier.len() as int] == id);
                            if earlier.contains(c) {
                                let j = choose|j: int| 0 <= j < earlier.len() && earlier[j] == c;
                                assert(clients[j] == c);
                            }
                        }
                    }
                }
                assert(self@.last_heartbeat =~= before.last_heartbeat.remove_keys(gone(i + 1)));
                assert(self@.active_clients =~= before.active_clients.remove_keys(gone(i + 1)));
            } else {
                assert(gone(i + 1) =~= gone(i as int));
            }
        }
        proof {
            let timed_out = Set::new(|c: Seq<char>| before.timed_out(c, now));
            assert(all.take(all.len() as int) =~= all);
            assert(gone(all.len() as int) =~= timed_out);
            assert(clients.no_duplicates());
        }
        ends
    }

    /// Takes a connection out of the registry, and returns the identifier of its guest's
    /// machine, or nothing where none is known.
    pub fn unregister(&mut self, client: &str) -> (machine: String)
        ensures
            final(self)@ == old(self)@.unregistered(client@),
            machine@ == old(self)@.machine_or_empty(client@),
    {
        let _ = self.active_clients.remove(client);
        let _ = self.last_heartbeat.remove(client);
        let _ = self.client_ip.remove(client);
        assert(self@.client_ip =~= old(self)@.client_ip.remove(client@));
        let machine = self.client_machine.remove(client);
        assert(self@.client_machine =~= old(self)@.client_machine.remove(client@));
        assert(self@ =~= old(self)@.unregistered(client@));
        match machine {
            Some(m) => m,
            None => String::new(),
        }
    }
}

// ---------------------------------------------------------------------------------------
// One connection
// ---------------------------------------------------------------------------------------
/// The answer to a request whose key no protocol has.
pub open spec fn unknown_answer(key: Seq<char>) -> ResponseView {
    protocols::failure("未知协议: "@ + key)
}

/// The answer to a request whose key no protocol has.
pub fn unknown_response(key: &str) -> (response: ProtocolResponse)
    ensures
        response@ == unknown_answer(key@),
{
    protocols::error_response(text::concat("未知协议: ", key).as_str())
}

/// How far the handling of a connection is.
#[derive(Debug)]
pub enum Stage {
    /// Waits for a request.
    Receiving,
    /// Waits for the protocol's answer to a request.
    Handling(ProtocolRequest),
    /// Waits until an answer is written.
    Sending(ProtocolRequest, ProtocolResponse),
    /// Over.
    Closed,
}

/// How far the handling of a connection is.
#[verifier::ext_equal]
pub enum StageView {
    Receiving,
    Handling(RequestView),
    Sending(RequestView, ResponseView),
    Closed,
}

impl View for Stage {
    type V = StageView;

    open spec fn view(&self) -> StageView {
        match self {
            Stage::Receiving => StageView::Receiving,
            Stage::Handling(request) => StageView::Handling(request@),
            Stage::Sending(request, response) => StageView::Sending(request@, response@),
            Stage::Closed => StageView::Closed,
        }
    }
}

/// The handling of one connection: requests are received, handed to the protocol with their
/// key, and answered, one after the other.
#[derive(Debug)]
pub struct ClientSession {
    /// The identifier of the connection.
    pub client: String,
    /// How far the handling is.
    pub stage: Stage,
}

/// What happened on a connection.
pub enum ClientEvent {
    /// The server stops, or the connection is to be ended.
    Stopped,
    /// A request came.
    Received(ProtocolRequest),
    /// No request could be read.
    ReadFailed,
    /// The protocol answered the request.
    Answered(ProtocolResponse),
    /// The answer was written, at this time.
    Written(u64),
    /// The answer could not be written.
    WriteFailed,
}

/// What to do next on a connection.
pub enum ClientAction {
    /// Read a request.
    Receive,
    /// Have the request answered by the protocol with its key.
    Handle,
    /// Write these bytes.
    Send(Vec<u8>),
    /// Close the connection, and report that the guest of this machine is gone. The identifier
    /// is empty where it is not known.
    Close(String),
    /// Nothing: the event does not fit the stage.
    Ignore,
}

/// Whether an event ends the handling of a connection.
pub open spec fn ends_session(event: ClientEvent) -> bool {
    event is Stopped || event is ReadFailed || event is WriteFailed
}

/// What follows an event on the connection `client` at `stage`: the next stage, the registry
/// after the event and what to do.
pub open spec fn session_stepped<H, T>(
    client: Seq<char>,
    stage: StageView,
    event: ClientEvent,
    handlers: Map<Seq<char>, H>,
    registry: RegistryView<T>,
    next_stage: StageView,
    next_registry: RegistryView<T>,
    action: ClientAction,
) -> bool {
    match (stage, event) {
        (StageView::Closed, _) => {
            &&& action is Ignore
            &&& next_stage == stage
            &&& next_registry == registry
        },
        (StageView::Receiving, ClientEvent::Received(request)) => {
            &&& next_registry == registry
            &&& if handlers.contains_key(request@.key()) {
                &&& next_stage == StageView::Handling(request@)
                &&& action is Handle
            } else {
                let answer = unknown_answer(request@.key());
                &&& next_stage == StageView::Sending(request@, answer)
                &&& action matches ClientAction::Send(bytes) && bytes@
                    == protocol_serializer::response_frame(answer)
            }
        },
        (StageView::Handling(request), ClientEvent::Answered(response)) => {
            &&& next_registry == registry
            &&& next_stage == StageView::Sending(request, response@)
            &&& action matches ClientAction::Send(bytes) && bytes@
                == protocol_serializer::response_frame(response@)
        },
        (StageView::Sending(request, response), ClientEvent::Written(now)) => {
            &&& next_registry == registry.after_answer(client, request, response, now)
            &&& next_stage == StageView::Receiving
            &&& action is Receive
        },
        _ => if ends_session(event) {
            &&& next_registry == registry.unregistered(client)
            &&& next_stage == StageView::Closed
            &&& action matches ClientAction::Close(machine) && machine@
                == registry.machine_or_empty(client)
        } else {
            &&& action is Ignore
            &&& next_stage == stage
            &&& next_registry == registry
        },
    }
}

impl ClientSession {
    /// A connection that waits for its first request.
    pub fn new(client: &str) -> (session: Self)
        ensures
            session.client@ == client@,
            session.stage is Receiving,
    {
        ClientSession { client: client.to_owned(), stage: Stage::Receiving }
    }

    /// The request that is to be answered.
    pub fn request(&self) -> (request: Option<&ProtocolRequest>)
        ensures
            match request {
                Some(r) => self.stage@ == StageView::Handling(r@),
                None => !(self.stage is Handling),
            },
    {
        match &self.stage {
            Stage::Handling(request) => Some(request),
            _ => None,
        }
    }

    /// What follows an event on the connection. A request whose key no protocol has is
    /// answered at once. The registry learns of an answer only when it was written, and the
    /// connection leaves the registry when its handling ends, whatever ends it.
    pub fn step<H, T>(
        &mut self,
        event: ClientEvent,
        handlers: &Table<H>,
        registry: &mut ClientRegistry<T>,
    ) -> (action: ClientAction)
        ensures
            final(self).client@ == old(self).client@,
            session_stepped(
                old(self).client@,
                old(self).stage@,
                event,
                handlers@,
                old(registry)@,
                final(self).stage@,
                final(registry)@,
                action,
            ),
    {
        let mut stage = Stage::Closed;
        std::mem::swap(&mut stage, &mut self.stage);
        match (stage, event) {
            (Stage::Closed, _) => ClientAction::Ignore,
            (Stage::Receiving, ClientEvent::Received(request)) => {
                let key = request.key();
                if handlers.contains(key.as_str()) {
                    self.stage = Stage::Handling(request);
                    ClientAction::Handle
                } else {
                    let response = unknown_response(key.as_str());
                    let bytes = protocol_serializer::serialize_response(&response);
                    self.stage = Stage::Sending(request, response);
                    ClientAction::Send(bytes)
                }
            },
            (Stage::Handling(request), ClientEvent::Answered(response)) => {
                let bytes = protocol_serializer::serialize_response(&response);
                self.stage = Stage::Sending(request, response);
                ClientAction::Send(bytes)
            },
            (Stage::Sending(request, response), ClientEvent::Written(now)) => {
                registry.note_answer(self.client.as_str(), &request, &response, now);
                self.stage = Stage::Receiving;
                ClientAction::Receive
            },
            (other, event) => {
                let ends = match event {
                    ClientEvent::Stopped => true,
                    ClientEvent::ReadFailed => true,
                    ClientEvent::WriteFailed => true,
                    _ => false,
                };
                if ends {
                    ClientAction::Close(registry.unregister(self.client.as_str()))
                } else {
                    self.stage = other;
                    ClientAction::Ignore
                }
            },
        }
    }
}

// ---------------------------------------------------------------------------------------
// Laws
// ---------------------------------------------------------------------------------------
/// A refused heartbeat does not show that the guest is alive: where its silence counts already,
/// the registry stays as it was; else its silence counts from then on. Nothing else changes.
pub proof fn refused_heartbeat_is_not_heard<T>(
    registry: RegistryView<T>,
    client: Seq<char>,
    request: RequestView,
    response: ResponseView,
    now: u64,
)
    requires
        is_heartbeat(request),
        response.status != 0,
    ensures
        ({
            let after = registry.after_answer(client, request, response, now);
            &&& registry.last_heartbeat.contains_key(client) ==> after == registry
            &&& !registry.last_heartbeat.contains_key(client) ==> after == (RegistryView {
                last_heartbeat: registry.last_heartbeat.insert(client, now),
                ..registry
            })
        }),
{
}

/// A request that is no heartbeat leaves the registry as it was.
pub proof fn other_requests_are_not_heard<T>(
    registry: RegistryView<T>,
    client: Seq<char>,
    request: RequestView,
    response: ResponseView,
    now: u64,
)
    requires
        !is_heartbeat(request),
    ensures
        registry.after_answer(client, request, response, now) == registry,
{
}

proof fn first_heartbeat_of_more(answers: Seq<AnswerView>, next: AnswerView)
    ensures
        first_heartbeat(answers.push(next)) == match first_heartbeat(answers) {
            Some(time) => Some(time),
            None => if is_heartbeat(next.request) {
                Some(next.time)
            } else {
                None
            },
        },
    decreases answers.len(),
{
    let more = answers.push(next);
    if answers.len() == 0 {
        assert(more[0] == next);
        assert(first_heartbeat(answers) is None);
        assert(first_heartbeat(more.skip(1)) is None);
    } else {
        let rest = answers.skip(1);
        assert(more[0] == answers[0]);
        assert(more.skip(1) =~= rest.push(next));
        first_heartbeat_of_more(rest, next);
        assert(first_heartbeat(more) == if is_heartbeat(answers[0].request) {
            Some(answers[0].time)
        } else {
            first_heartbeat(rest.push(next))
        });
    }
}

/// While no heartbeat of a guest is accepted, its silence counts from when it counted before or,
/// where it did not count yet, from its first heartbeat on; the guest stays connected and its
/// machine is not noted.
pub proof fn silence_counts_from_the_first_refusal<T>(
    registry: RegistryView<T>,
    client: Seq<char>,
    answers: Seq<AnswerView>,
)
    requires
        none_accepted(answers),
    ensures
        ({
            let after = registry.after_answers(client, answers);
            &&& after.last_heartbeat.get(client) == match registry.last_heartbeat.get(client) {
                Some(time) => Some(time),
                None => first_heartbeat(answers),
            }
            &&& after.active_clients == registry.active_clients
            &&& after.client_machine == registry.client_machine
            &&& after.client_ip == registry.client_ip
        }),
    decreases answers.len(),
{
    if answers.len() > 0 {
        let less = answers.drop_last();
        assert(answers =~= less.push(answers.last()));
        first_heartbeat_of_more(less, answers.last());
        silence_counts_from_the_first_refusal(registry, client, less);
    }
}

/// A guest that went silent, and no other, is disconnected when the center next looks.
pub proof fn silent_guest_is_disconnected<T>(
    before: RegistryView<T>,
    client: Seq<char>,
    now: u64,
    after: RegistryView<T>,
    ends: Seq<T>,
)
    requires
        silent_removed(before, now, after, ends),
        before.active_clients.contains_key(client),
    ensures
        after.active_clients.contains_key(client) <==> !before.timed_out(client, now),
        before.timed_out(client, now) ==> ends.contains(before.active_clients[client]),
{
    if before.timed_out(client, now) {
        let clients = choose|clients: Seq<Seq<char>>|
            {
                &&& #[trigger] clients.no_duplicates()
                &&& clients.len() == ends.len()
                &&& forall|i: int|
                    0 <= i < clients.len() ==> before.active_clients.contains_key(
                        #[trigger] clients[i],
                    ) && before.active_clients[clients[i]] == ends[i]
                &&& forall|c: Seq<char>|
                    clients.contains(c) <==> #[trigger] before.timed_out(c, now)
                        && before.active_clients.contains_key(c)
            };
        assert(clients.contains(client));
        let i = choose|i: int| 0 <= i < clients.len() && clients[i] == client;
        assert(ends[i] == before.active_clients[client]);
    }
}

/// A guest whose heartbeats are all refused, however many there are, is disconnected when the
/// center next looks once the timeout has passed since the last one that was accepted before
/// or, where none was, since the first one that was refused; and not earlier.
pub proof fn refused_guest_is_disconnected<T>(
    registry: RegistryView<T>,
    client: Seq<char>,
    answers: Seq<AnswerView>,
    now: u64,
    after: RegistryView<T>,
    ends: Seq<T>,
)
    requires
        registry.active_clients.contains_key(client),
        none_accepted(answers),
        first_heartbeat(answers) is Some,
        silent_removed(registry.after_answers(client, answers), now, after, ends),
    ensures
        ({
            let since = match registry.last_heartbeat.get(client) {
                Some(time) => time,
                None => first_heartbeat(answers)->0,
            };
            &&& after.active_clients.contains_key(client) <==> now - since
                <= HEARTBEAT_TIMEOUT_NANOS
            &&& now - since > HEARTBEAT_TIMEOUT_NANOS ==> ends.contains(
                registry.active_clients[client],
            )
        }),
{
    silence_counts_from_the_first_refusal(registry, client, answers);
    silent_guest_is_disconnected(
        registry.after_answers(client, answers),
        client,
        now,
        after,
        ends,
    );
}

/// A guest that is turned away at each of its heartbeats, or whose heartbeats cannot be read, has
/// no heartbeat accepted.
pub proof fn turned_away_is_not_accepted(answers: Seq<AnswerView>)
    requires
        forall|i: int|
            0 <= i < answers.len() && is_heartbeat((#[trigger] answers[i]).request) ==> {
                ||| answers[i].response == protocols::ping_answer(false)
                ||| exists|message: Seq<char>|
                    answers[i].response == #[trigger] protocols::failure(message)
            },
    ensures
        none_accepted(answers),
{
}

/// The machine that the registry notes for an accepted heartbeat is that of the player whom the
/// heartbeat describes, where the heartbeat names it as a text.
pub proof fn heartbeat_names_the_player<T>(
    registry: RegistryView<T>,
    client: Seq<char>,
    root: Json,
    now: u64,
)
    requires
        root.get("machine_id"@) matches Some(value) && value is Text,
    ensures
        registry.heard_of(client, now, Ok(root)).machine_or_empty(client)
            == protocols::pinging_player(root).machine_id,
{
}

/// A guest that was just heard of is not silent until the timeout has passed.
pub proof fn heartbeat_keeps_the_guest<T>(
    registry: RegistryView<T>,
    client: Seq<char>,
    heartbeat: Result<Json, Seq<char>>,
    heard: u64,
    now: u64,
)
    ensures
        registry.heard_of(client, heard, heartbeat).timed_out(client, now) <==> now - heard
            > HEARTBEAT_TIMEOUT_NANOS,
{
}

/// What one connection does leaves the others as they are.
pub proof fn connections_are_independent<T>(
    registry: RegistryView<T>,
    client: Seq<char>,
    other: Seq<char>,
    request: RequestView,
    response: ResponseView,
    now: u64,
    end: T,
    ip: Seq<char>,
)
    requires
        client != other,
    ensures
        registry.after_answer(client, request, response, now).of_connection(other)
            == registry.of_connection(other),
        registry.registered(client, end, ip).of_connection(other) == registry.of_connection(other),
        registry.unregistered(client).of_connection(other) == registry.of_connection(other),
{
}

/// A connection that is entered, answers requests and leaves, leaves nothing behind: the
/// registry is as it would be without it.
pub proof fn leaving_undoes_entering<T>(
    registry: RegistryView<T>,
    client: Seq<char>,
    end: T,
    ip: Seq<char>,
    request: RequestView,
    response: ResponseView,
    now: u64,
)
    ensures
        registry.registered(client, end, ip).unregistered(client) == registry.unregistered(client),
        registry.after_answer(client, request, response, now).unregistered(client)
            == registry.unregistered(client),
{
    assert(registry.registered(client, end, ip).unregistered(client) =~= registry.unregistered(
        client,
    ));
    assert(registry.after_answer(client, request, response, now).unregistered(client)
        =~= registry.unregistered(client));
}

/// The guest of a machine is disconnected, where exactly one connection is that of the machine
/// and it is active: what ends it is returned, and no other connection is touched. Of a machine
/// that no connection is of, nothing is.
pub proof fn machine_is_disconnected<T>(
    before: RegistryView<T>,
    machine: Seq<char>,
    client: Seq<char>,
    after: RegistryView<T>,
    end: Option<T>,
)
    requires
        machine_disconnected(before, machine, after, end),
    ensures
        !before.knows_machine(machine) ==> end is None && after == before,
        before.is_machine(client, machine) && (forall|other: Seq<char>| #[trigger]
            before.is_machine(other, machine) ==> other == client) ==> {
            &&& end == before.active_clients.get(client)
            &&& !after.active_clients.contains_key(client)
        },
        forall|other: Seq<char>|
            !before.is_machine(other, machine) ==> #[trigger] after.active_clients.get(other)
                == before.active_clients.get(other),
        after.client_machine == before.client_machine,
        after.client_ip == before.client_ip,
        after.last_heartbeat == before.last_heartbeat,
{
    if let Some(e) = end {
        let found = choose|found: Seq<char>|
            {
                &&& #[trigger] before.is_machine(found, machine)
                &&& before.active_clients.contains_key(found)
                &&& e == before.active_clients[found]
                &&& after == (RegistryView {
                    active_clients: before.active_clients.remove(found),
                    ..before
                })
            };
        assert(before.is_machine(found, machine));
        assert(before.knows_machine(machine));
    } else if before.is_machine(client, machine) {
        assert(before.knows_machine(machine));
    }
}

/// The address of a machine is the one that its connection came from, where exactly one
/// connection is that of the machine; of a machine that no connection is of, there is none.
pub proof fn machine_has_its_address<T>(
    registry: RegistryView<T>,
    machine: Seq<char>,
    client: Seq<char>,
    ip: Option<Seq<char>>,
)
    requires
        is_source_ip(registry, machine, ip),
    ensures
        !registry.knows_machine(machine) ==> ip is None,
        registry.is_machine(client, machine) && (forall|other: Seq<char>| #[trigger]
            registry.is_machine(other, machine) ==> other == client) ==> ip
            == registry.client_ip.get(client),
{
    if registry.is_machine(client, machine) {
        assert(registry.knows_machine(machine));
    }
}

/// A guest that connected and sent a heartbeat that was accepted is known by the machine that the
/// heartbeat names: its address is the one that it connected from, and what ends its connection
/// is what it was entered with.
pub proof fn accepted_guest_is_known<T>(
    registry: RegistryView<T>,
    client: Seq<char>,
    end: T,
    ip: Seq<char>,
    request: RequestView,
    response: ResponseView,
    now: u64,
    root: Json,
    machine: Seq<char>,
    found_ip: Option<Seq<char>>,
    after: RegistryView<T>,
    found_end: Option<T>,
)
    requires
        request.key() == "c:player_ping"@,
        response.status == 0,
        json::json_parsed(request.body) == Ok::<Json, Seq<char>>(root),
        root.get("machine_id"@) == Some(Json::Text(machine)),
        forall|other: Seq<char>| other != client ==> !#[trigger] registry.is_machine(other, machine),
        ({
            let known = registry.registered(client, end, ip).after_answer(
                client,
                request,
                response,
                now,
            );
            &&& is_source_ip(known, machine, found_ip)
            &&& machine_disconnected(known, machine, after, found_end)
        }),
    ensures
        found_ip == Some(ip),
        found_end == Some(end),
        !after.active_clients.contains_key(client),
{
    let known = registry.registered(client, end, ip).after_answer(client, request, response, now);
    assert(known.is_machine(client, machine));
    assert forall|other: Seq<char>| #[trigger] known.is_machine(other, machine) implies other
        == client by {
        if other != client {
            assert(!registry.is_machine(other, machine));
        }
    }
    machine_is_disconnected(known, machine, client, after, found_end);
    machine_has_its_address(known, machine, client, found_ip);
}

/// What an accepted heartbeat changes: the guest is heard of now, and its machine is the one that
/// the heartbeat names, an empty one where what it names is no text, and the one that was known
/// where it names none. Nothing else changes.
pub proof fn accepted_heartbeat_counts<T>(
    registry: RegistryView<T>,
    client: Seq<char>,
    request: RequestView,
    response: ResponseView,
    now: u64,
)
    requires
        request.key() == "c:player_ping"@,
        response.status == 0,
    ensures
        ({
            let after = registry.after_answer(client, request, response, now);
            let known = registry.client_machine.get(client);
            &&& after.last_heartbeat.get(client) == Some(now)
            &&& after.active_clients == registry.active_clients
            &&& after.client_ip == registry.client_ip
            &&& after.client_machine.get(client) == match json::json_parsed(request.body) {
                Ok(root) => match root.get("machine_id"@) {
                    Some(Json::Text(machine)) => Some(machine),
                    Some(_) => Some(Seq::<char>::empty()),
                    None => known,
                },
                Err(_) => known,
            }
        }),
{
}

/// A guest is silent for too long when more than fifteen seconds have passed, and not before.
pub proof fn fifteen_seconds_are_silence<T>(
    registry: RegistryView<T>,
    client: Seq<char>,
    since: u64,
    now: u64,
)
    requires
        registry.last_heartbeat.get(client) == Some(since),
    ensures
        registry.timed_out(client, now) <==> now - since > 15_000_000_000,
{
}

/// A guest of which nothing was ever heard, and who was never refused, is not silent.
pub proof fn unheard_guest_is_not_silent<T>(registry: RegistryView<T>, client: Seq<char>, now: u64)
    requires
        registry.last_heartbeat.get(client) is None,
    ensures
        !registry.timed_out(client, now),
{
}

/// A request whose key has a handler is answered with what the handler answers: the guest reads
/// exactly that from the bytes that are sent. When it was written, the next request is waited
/// for, and the registry has taken the answer into account.
pub proof fn request_is_answered_by_its_handler<H, T>(
    client: Seq<char>,
    request: ProtocolRequest,
    response: ProtocolResponse,
    now: u64,
    handlers: Map<Seq<char>, H>,
    registries: (RegistryView<T>, RegistryView<T>, RegistryView<T>, RegistryView<T>),
    stages: (StageView, StageView, StageView),
    actions: (ClientAction, ClientAction, ClientAction),
    rest: Seq<u8>,
)
    requires
        handlers.contains_key(request@.key()),
        response@.body.len() <= u32::MAX,
        session_stepped(
            client,
            StageView::Receiving,
            ClientEvent::Received(request),
            handlers,
            registries.0,
            stages.0,
            registries.1,
            actions.0,
        ),
        session_stepped(
            client,
            stages.0,
            ClientEvent::Answered(response),
            handlers,
            registries.1,
            stages.1,
            registries.2,
            actions.1,
        ),
        session_stepped(
            client,
            stages.1,
            ClientEvent::Written(now),
            handlers,
            registries.2,
            stages.2,
            registries.3,
            actions.2,
        ),
    ensures
        actions.0 is Handle,
        stages.0 == StageView::Handling(request@),
        actions.1 matches ClientAction::Send(bytes) && protocol_serializer::parsed_response(
            bytes@ + rest,
        ) == Ok::<ResponseView, ErrorView>(response@),
        actions.2 is Receive,
        stages.2 is Receiving,
        registries.2 == registries.0,
        registries.3 == registries.0.after_answer(client, request@, response@, now),
{
    protocol_serializer::response_roundtrip(response@, rest);
}

/// A request whose key has no handler is answered at once, with status 255 and a message that
/// names the key.
pub proof fn unknown_request_is_refused<H, T>(
    client: Seq<char>,
    request: ProtocolRequest,
    handlers: Map<Seq<char>, H>,
    before: RegistryView<T>,
    stage: StageView,
    after: RegistryView<T>,
    action: ClientAction,
)
    requires
        !handlers.contains_key(request@.key()),
        vstd::utf8::encode_utf8("未知协议: "@ + request@.key()).len() <= u32::MAX,
        session_stepped(
            client,
            StageView::Receiving,
            ClientEvent::Received(request),
            handlers,
            before,
            stage,
            after,
            action,
        ),
    ensures
        after == before,
        action matches ClientAction::Send(bytes) && protocol_serializer::parsed_response(bytes@)
            == Ok::<ResponseView, ErrorView>(
            ResponseView {
                status: 255,
                body: vstd::utf8::encode_utf8("未知协议: "@ + request@.key()),
            },
        ),
{
    let answer = unknown_answer(request@.key());
    protocol_serializer::response_roundtrip(answer, Seq::empty());
    let bytes = action->Send_0@;
    assert(bytes + Seq::<u8>::empty() =~= bytes);
}

/// Whatever ends a connection that is not over, the connection leaves the registry, and the
/// machine that was known of it is reported; afterwards nothing changes any more.
pub proof fn ended_connection_leaves<H, T>(
    client: Seq<char>,
    stage: StageView,
    event: ClientEvent,
    handlers: Map<Seq<char>, H>,
    before: RegistryView<T>,
    next: StageView,
    after: RegistryView<T>,
    action: ClientAction,
)
    requires
        session_stepped(client, stage, event, handlers, before, next, after, action),
    ensures
        stage is Closed ==> next is Closed && after == before && action is Ignore,
        !(stage is Closed) && (event is Stopped || event is ReadFailed || event is WriteFailed) ==> {
            &&& next is Closed
            &&& after.of_connection(client) == (
                None::<u64>,
                None::<T>,
                None::<Seq<char>>,
                None::<Seq<char>>,
            )
            &&& action matches ClientAction::Close(machine) && match before.client_machine.get(
                client,
            ) {
                Some(known) => machine@ == known,
                None => machine@.len() == 0,
            }
        },
        action is Close ==> event is Stopped || event is ReadFailed || event is WriteFailed,
        action is Ignore ==> next == stage && after == before,
{
}

} // verus!
