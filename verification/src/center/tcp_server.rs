//! The server that guests connect to.
use vstd::prelude::*;

use crate::center::client_conn;
use crate::center::client_conn::{
    ClientAction, ClientEvent, ClientRegistry, ClientSession, RegistryView,
};
use crate::center::table::Table;
use crate::error::{ErrorView, ScaffoldingError};
use crate::text;

verus! {

/// The server of a center: its port, the handlers of its protocols by their keys, and the
/// guests that are connected. A handler is a value of type `H`, what ends a connection a value
/// of type `T`.
#[derive(Debug)]
pub struct TcpServer<H, T> {
    handlers: Table<H>,
    listening: bool,
    port: u16,
    registry: ClientRegistry<T>,
}

/// What happened to the server.
pub enum ServerEvent<T> {
    /// The server is to be started.
    Start,
    /// The port was bound; the actual port, where it is known.
    Bound(Option<u16>),
    /// The port could not be bound, for this reason.
    BindFailed(String),
    /// A guest connected: the identifier of the connection, the address that it comes from,
    /// and what ends it.
    Accepted(String, String, T),
    /// A guest could not be let in.
    AcceptFailed,
    /// The server is to wait for no more guests.
    Cancelled,
}

/// What to do next for the server.
pub enum ServerAction {
    /// Bind this port on all addresses.
    Bind(u16),
    /// Start looking for silent guests, and wait for the first guest.
    Listen,
    /// Handle a connection, and wait for the next guest.
    Serve(ClientSession),
    /// Wait for the next guest.
    Accept,
    /// Wait for no more guests. The listener stays until the server is stopped.
    Return,
    /// The server could not be started.
    Fail(ScaffoldingError),
}

/// Handlers with their keys.
pub open spec fn keyed<H>(handlers: Seq<(String, H)>) -> Seq<(Seq<char>, H)> {
    handlers.map_values(|h: (String, H)| (h.0@, h.1))
}

/// The handlers by their keys: of two with the same key the later one.
pub open spec fn handlers_by_key<H>(handlers: Seq<(Seq<char>, H)>) -> Map<Seq<char>, H>
    decreases handlers.len(),
{
    if handlers.len() == 0 {
        Map::empty()
    } else {
        handlers_by_key(handlers.drop_last()).insert(handlers.last().0, handlers.last().1)
    }
}

/// Handlers with different keys are all found by their keys, and no other key is there.
pub proof fn distinct_handlers_are_found<H>(handlers: Seq<(Seq<char>, H)>)
    requires
        forall|i: int, j: int|
            0 <= i < j < handlers.len() ==> (#[trigger] handlers[i]).0 != (
            #[trigger] handlers[j]).0,
    ensures
        forall|i: int|
            0 <= i < handlers.len() ==> handlers_by_key(handlers).contains_key(
                (#[trigger] handlers[i]).0,
            ) && handlers_by_key(handlers)[handlers[i].0] == handlers[i].1,
        forall|key: Seq<char>| #[trigger]
            handlers_by_key(handlers).contains_key(key) ==> exists|i: int|
                0 <= i < handlers.len() && (#[trigger] handlers[i]).0 == key,
    decreases handlers.len(),
{
    if handlers.len() > 0 {
        let less = handlers.drop_last();
        let last = handlers.len() - 1;
        assert forall|i: int, j: int| 0 <= i < j < less.len() implies (#[trigger] less[i]).0 != (
        #[trigger] less[j]).0 by {
            assert(handlers[i].0 != handlers[j].0);
        }
        distinct_handlers_are_found(less);
        assert forall|i: int| 0 <= i < handlers.len() implies handlers_by_key(
            handlers,
        ).contains_key((#[trigger] handlers[i]).0) && handlers_by_key(handlers)[handlers[i].0]
            == handlers[i].1 by {
            if i < last {
                assert(less[i] == handlers[i]);
                assert(handlers[i].0 != handlers[last].0);
            }
        }
        assert forall|key: Seq<char>| #[trigger]
            handlers_by_key(handlers).contains_key(key) implies exists|i: int|
            0 <= i < handlers.len() && (#[trigger] handlers[i]).0 == key by {
            if key == handlers[last].0 {
                assert(handlers[last].0 == key);
            } else {
                assert(handlers_by_key(less).contains_key(key));
                let i = choose|i: int| 0 <= i < less.len() && (#[trigger] less[i]).0 == key;
                assert(less[i] == handlers[i]);
            }
        }
    }
}

/// The error for a server that is started twice.
pub open spec fn already_started() -> ErrorView {
    ErrorView::Protocol("TCP 服务已启动"@)
}

/// The error for a port that could not be bound.
pub open spec fn bind_failed(port: u16, reason: Seq<char>) -> ErrorView {
    ErrorView::Protocol(
        "TCP 端口 "@ + text::decimal(port as nat) + " 绑定失败: "@ + reason,
    )
}

/// What follows an event: the server after it, and what to do.
pub open spec fn server_stepped<H, T>(
    before: TcpServer<H, T>,
    event: ServerEvent<T>,
    after: TcpServer<H, T>,
    action: ServerAction,
) -> bool {
    &&& after.handlers() == before.handlers()
    &&& match event {
        ServerEvent::Start => {
            &&& after.bound_port() == before.bound_port()
            &&& after.listens() == before.listens()
            &&& after.registry() == before.registry()
            &&& if before.listens() {
                action matches ServerAction::Fail(error) && error@ == already_started()
            } else {
                action == ServerAction::Bind(before.bound_port())
            }
        },
        ServerEvent::Bound(actual) => {
            &&& after.bound_port() == match actual {
                Some(port) => port,
                None => before.bound_port(),
            }
            &&& after.listens()
            &&& after.registry() == before.registry()
            &&& action is Listen
        },
        ServerEvent::BindFailed(reason) => {
            &&& after.bound_port() == before.bound_port()
            &&& after.listens() == before.listens()
            &&& after.registry() == before.registry()
            &&& action matches ServerAction::Fail(error) && error@ == bind_failed(
                before.bound_port(),
                reason@,
            )
        },
        ServerEvent::Accepted(client, ip, end) => {
            &&& after.bound_port() == before.bound_port()
            &&& after.listens() == before.listens()
            &&& after.registry() == before.registry().registered(
                client@,
                end,
                ip@,
            )
            &&& action matches ServerAction::Serve(session) && session.client@ == client@
                && session.stage is Receiving
        },
        ServerEvent::AcceptFailed => {
            &&& after.bound_port() == before.bound_port()
            &&& after.listens() == before.listens()
            &&& after.registry() == before.registry()
            &&& action is Accept
        },
        ServerEvent::Cancelled => {
            &&& after.bound_port() == before.bound_port()
            &&& after.listens() == before.listens()
            &&& after.registry() == before.registry()
            &&& action is Return
        },
    }
}

impl<H, T> TcpServer<H, T> {
    /// The handlers by their keys.
    pub closed spec fn handlers(&self) -> Map<Seq<char>, H> {
        self.handlers@
    }

    /// The guests that are connected.
    pub closed spec fn registry(&self) -> RegistryView<T> {
        self.registry@
    }

    /// Whether the server has a listener: from when its port was bound until it is stopped.
    pub closed spec fn listens(&self) -> bool {
        self.listening
    }

    /// The port of the server.
    pub closed spec fn bound_port(&self) -> u16 {
        self.port
    }

    /// A server that is not started, with the handlers of its protocols and their keys.
    pub fn new(port: u16, protocols: Vec<(String, H)>) -> (server: Self)
        ensures
            server.bound_port() == port,
            !server.listens(),
            server.handlers() == handlers_by_key(keyed(protocols@)),
            server.registry() == (RegistryView {
                last_heartbeat: Map::<Seq<char>, u64>::empty(),
                active_clients: Map::<Seq<char>, T>::empty(),
                client_machine: Map::<Seq<char>, Seq<char>>::empty(),
                client_ip: Map::<Seq<char>, Seq<char>>::empty(),
            }),
    {
        let ghost all = protocols@;
        let ghost pairs = keyed(all);
        let mut handlers: Table<H> = Table::new();
        let mut protocols = protocols;
        let ghost mut done: int = 0;
        while protocols.len() > 0
            invariant
                0 <= done <= all.len(),
                pairs == keyed(all),
                protocols@ == all.skip(done),
                handlers@ == handlers_by_key(pairs.take(done)),
            decreases protocols@.len(),
        {
            let (key, handler) = protocols.remove(0);
            assert(pairs.take(done + 1).drop_last() =~= pairs.take(done));
            assert(pairs.take(done + 1).last() == (key@, handler));
            handlers.insert(key.as_str(), handler);
            proof {
                done = done + 1;
            }
            assert(protocols@ =~= all.skip(done));
        }
        assert(pairs.take(done) =~= pairs);
        TcpServer { handlers, listening: false, port, registry: ClientRegistry::new() }
    }

    /// Whether the server has a listener.
    pub fn is_running(&self) -> (running: bool)
        ensures
            running == self.listens(),
    {
        self.listening
    }

    /// The port of the server: the one that was bound, or the one that is to be bound.
    pub fn port(&self) -> (port: u16)
        ensures
            port == self.bound_port(),
    {
        self.port
    }

    /// The handler of a protocol.
    pub fn handler(&self, key: &str) -> (handler: Option<&H>)
        ensures
            match handler {
                Some(h) => self.handlers().contains_key(key@) && *h == self.handlers()[key@],
                None => !self.handlers().contains_key(key@),
            },
    {
        self.handlers.get(key)
    }

    /// What follows an event.
    pub fn step(&mut self, event: ServerEvent<T>) -> (action: ServerAction)
        ensures
            server_stepped(*old(self), event, *final(self), action),
    {
        match event {
            ServerEvent::Start => if self.listening {
                ServerAction::Fail(ScaffoldingError::Protocol("TCP 服务已启动".to_owned()))
            } else {
                ServerAction::Bind(self.port)
            },
            ServerEvent::Bound(actual) => {
                if let Some(port) = actual {
                    self.port = port;
                }
                self.listening = true;
                ServerAction::Listen
            },
            ServerEvent::BindFailed(reason) => {
                let mut message = text::concat(
                    "TCP 端口 ",
                    text::decimal_text(self.port as u64).as_str(),
                );
                message.append(" 绑定失败: ");
                message.append(reason.as_str());
                ServerAction::Fail(ScaffoldingError::Protocol(message))
            },
            ServerEvent::Accepted(client, ip, end) => {
                self.registry.register(client.as_str(), end, ip.as_str());
                ServerAction::Serve(ClientSession::new(client.as_str()))
            },
            ServerEvent::AcceptFailed => ServerAction::Accept,
            ServerEvent::Cancelled => ServerAction::Return,
        }
    }

    /// Gives the listener up, so that the server can be started again. The connections are to
    /// be cancelled and the listener closed.
    pub fn stop(&mut self)
        ensures
            !final(self).listens(),
            final(self).handlers() == old(self).handlers(),
            final(self).bound_port() == old(self).bound_port(),
            final(self).registry() == old(self).registry(),
    {
        self.listening = false;
    }

    /// What follows an event on a connection.
    pub fn step_session(&mut self, session: &mut ClientSession, event: ClientEvent) -> (action:
        ClientAction)
        ensures
            final(self).handlers() == old(self).handlers(),
            final(self).listens() == old(self).listens(),
            final(self).bound_port() == old(self).bound_port(),
            final(session).client@ == old(session).client@,
            client_conn::session_stepped(
                old(session).client@,
                old(session).stage@,
                event,
                old(self).handlers(),
                old(self).registry(),
                final(session).stage@,
                final(self).registry(),
                action,
            ),
    {
        session.step(event, &self.handlers, &mut self.registry)
    }

    /// Takes the guests that have been silent for too long out of the active ones, and returns
    /// what ends their connections.
    pub fn expire(&mut self, now: u64) -> (ends: Vec<T>)
        ensures
            final(self).handlers() == old(self).handlers(),
            final(self).listens() == old(self).listens(),
            final(self).bound_port() == old(self).bound_port(),
            client_conn::silent_removed(old(self).registry(), now, final(self).registry(), ends@),
    {
        self.registry.expire(now)
    }

    /// Ends the connection of a machine; returns what ends it, where one was found.
    pub fn disconnect_machine(&mut self, machine: &str) -> (end: Option<T>)
        ensures
            final(self).handlers() == old(self).handlers(),
            final(self).listens() == old(self).listens(),
            final(self).bound_port() == old(self).bound_port(),
            client_conn::machine_disconnected(
                old(self).registry(),
                machine@,
                final(self).registry(),
                end,
            ),
    {
        self.registry.disconnect_machine(machine)
    }

    /// The address that a machine connected from.
    pub fn machine_source_ip(&self, machine: &str) -> (ip: Option<String>)
        ensures
            client_conn::is_source_ip(self.registry(), machine@, text::optional_text(ip)),
    {
        self.registry.machine_source_ip(machine)
    }
}

// ---------------------------------------------------------------------------------------
// Laws
// ---------------------------------------------------------------------------------------
/// A server that has a listener is not started again; one that has none binds its port. Once the
/// port is bound the server listens, on the port that was actually bound, and nothing but a stop
/// ends that: neither a guest that cannot be let in nor a cancellation.
pub proof fn server_listens_until_it_is_stopped<H, T>(
    before: TcpServer<H, T>,
    event: ServerEvent<T>,
    after: TcpServer<H, T>,
    action: ServerAction,
)
    requires
        server_stepped(before, event, after, action),
    ensures
        before.listens() ==> after.listens(),
        after.listens() && !before.listens() ==> event is Bound,
        after.handlers() == before.handlers(),
        event is Start && before.listens() ==> (action matches ServerAction::Fail(error) && error@
            == ErrorView::Protocol("TCP 服务已启动"@)),
        event is Start && !before.listens() ==> action == ServerAction::Bind(before.bound_port()),
        event matches ServerEvent::Bound(Some(port)) ==> after.bound_port() == port
            && after.listens() && action is Listen,
        event == ServerEvent::<T>::Bound(None) ==> after.bound_port() == before.bound_port()
            && after.listens() && action is Listen,
        !(event is Bound) ==> after.bound_port() == before.bound_port(),
        event is AcceptFailed ==> action is Accept,
        event is Cancelled ==> action is Return,
        event matches ServerEvent::BindFailed(reason) ==> (action matches ServerAction::Fail(error)
            && error@ == ErrorView::Protocol(
            "TCP 端口 "@ + text::decimal(before.bound_port() as nat) + " 绑定失败: "@ + reason@,
        )),
{
}

/// A guest that connects is entered under the identifier of its connection, with what ends it and
/// the address that it comes from, and is served; no other event enters or removes anybody.
pub proof fn connecting_guest_is_entered<H, T>(
    before: TcpServer<H, T>,
    event: ServerEvent<T>,
    after: TcpServer<H, T>,
    action: ServerAction,
    other: Seq<char>,
)
    requires
        server_stepped(before, event, after, action),
    ensures
        !(event is Accepted) ==> after.registry() == before.registry(),
        event matches ServerEvent::Accepted(client, ip, end) ==> {
            &&& after.registry().active_clients.get(client@) == Some(end)
            &&& after.registry().client_ip.get(client@) == Some(ip@)
            &&& after.registry().client_machine == before.registry().client_machine
            &&& after.registry().last_heartbeat == before.registry().last_heartbeat
            &&& other != client@ ==> after.registry().of_connection(other)
                == before.registry().of_connection(other)
            &&& action matches ServerAction::Serve(session) && session.client@ == client@
                && session.stage is Receiving
        },
{
}

/// Of two handlers with the same key the later one answers; a handler does not touch other keys.
pub proof fn later_handler_answers<H>(
    handlers: Seq<(Seq<char>, H)>,
    key: Seq<char>,
    handler: H,
    other: Seq<char>,
)
    ensures
        handlers_by_key(handlers.push((key, handler))).get(key) == Some(handler),
        other != key ==> handlers_by_key(handlers.push((key, handler))).get(other)
            == handlers_by_key(handlers).get(other),
        handlers_by_key(Seq::<(Seq<char>, H)>::empty()).get(key) is None,
{
    assert(handlers.push((key, handler)).drop_last() =~= handlers);
}

} // verus!
