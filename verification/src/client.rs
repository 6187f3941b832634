//! The entry to the library: opens rooms, joins rooms, and keeps track of both.
use vstd::prelude::*;

use crate::center::scaffolding_center;
use crate::error::ScaffoldingError;
use crate::relay::nodes;
use crate::relay::provider;
use crate::relay::provider::RelayNodeProvider;
use crate::text;

verus! {

/// What to do to get the relay nodes.
pub enum RelayAction {
    /// Use these nodes.
    Use(Vec<String>),
    /// Ask the node service in the way of this provider.
    Fetch(RelayNodeProvider),
}

/// Which relay nodes are used, and which rooms were opened (`C`) and joined (`G`).
#[derive(Debug)]
pub struct ScaffoldingClient<C, G> {
    override_nodes: Option<Vec<String>>,
    additional_nodes: Option<Vec<String>>,
    user_agent: Option<String>,
    preferred_region: Option<String>,
    endpoint: Option<String>,
    cached_nodes: Option<Vec<String>>,
    centers: Vec<C>,
    guests: Vec<G>,
}

/// What a client holds.
#[verifier::ext_equal]
pub struct ClientState<C, G> {
    /// The nodes that are used in place of those of the node service.
    pub override_nodes: Option<Seq<Seq<char>>>,
    /// The nodes that are used besides.
    pub additional_nodes: Option<Seq<Seq<char>>>,
    pub user_agent: Option<Seq<char>>,
    pub preferred_region: Option<Seq<char>>,
    /// Where the node service is, where it is not at its usual place.
    pub endpoint: Option<Seq<char>>,
    /// The nodes that are used, once they are known.
    pub cached_nodes: Option<Seq<Seq<char>>>,
    /// The rooms that were opened.
    pub centers: Seq<C>,
    /// The rooms that were joined.
    pub guests: Seq<G>,
}

impl<C, G> View for ScaffoldingClient<C, G> {
    type V = ClientState<C, G>;

    closed spec fn view(&self) -> ClientState<C, G> {
        ClientState {
            override_nodes: scaffolding_center::optional_texts(self.override_nodes),
            additional_nodes: scaffolding_center::optional_texts(self.additional_nodes),
            user_agent: text::optional_text(self.user_agent),
            preferred_region: text::optional_text(self.preferred_region),
            endpoint: text::optional_text(self.endpoint),
            cached_nodes: scaffolding_center::optional_texts(self.cached_nodes),
            centers: self.centers@,
            guests: self.guests@,
        }
    }
}

impl<C, G> ClientState<C, G> {
    /// Nodes, and behind them the additional ones.
    pub open spec fn with_additional(self, first: Seq<Seq<char>>) -> Seq<Seq<char>> {
        match self.additional_nodes {
            Some(more) => first + more,
            None => first,
        }
    }

    /// The client after the node service named nodes: they and the additional ones are used from
    /// now on.
    pub open spec fn after_fetching(self, nodes: Seq<Seq<char>>) -> Self {
        ClientState { cached_nodes: Some(self.with_additional(nodes)), ..self }
    }

    /// The client after a room was opened, or could not be.
    pub open spec fn after_opening(self, center: C, opened: bool) -> Self {
        if opened {
            ClientState { centers: self.centers.push(center), ..self }
        } else {
            self
        }
    }

    /// The client after a room was joined, or could not be.
    pub open spec fn after_joining(self, guest: G, joined: bool) -> Self {
        if joined {
            ClientState { guests: self.guests.push(guest), ..self }
        } else {
            self
        }
    }

    /// The client after all rooms were handed out.
    pub open spec fn after_closing(self) -> Self {
        ClientState { centers: Seq::<C>::empty(), guests: Seq::<G>::empty(), ..self }
    }
}

/// A client that has opened and joined no room.
pub open spec fn new_client<C, G>(
    override_nodes: Option<Seq<Seq<char>>>,
    additional_nodes: Option<Seq<Seq<char>>>,
    user_agent: Option<Seq<char>>,
    preferred_region: Option<Seq<char>>,
) -> ClientState<C, G> {
    ClientState {
        override_nodes,
        additional_nodes,
        user_agent,
        preferred_region,
        endpoint: None,
        cached_nodes: None,
        centers: Seq::<C>::empty(),
        guests: Seq::<G>::empty(),
    }
}

/// What a client does to get the relay nodes, and what it holds then: nodes that are known are
/// used again; where nodes are given in place of those of the node service, they and the
/// additional ones are used; else the node service is asked, by the given name and for the
/// given region, or the one that the system is set to.
pub open spec fn nodes_resolved<C, G>(
    before: ClientState<C, G>,
    after: ClientState<C, G>,
    action: RelayAction,
) -> bool {
    match (before.cached_nodes, before.override_nodes) {
        (Some(known), _) => {
            &&& action matches RelayAction::Use(used) && text::texts(used@) == known
            &&& after == before
        },
        (None, Some(given)) => {
            let all = before.with_additional(given);
            &&& action matches RelayAction::Use(used) && text::texts(used@) == all
            &&& after == (ClientState { cached_nodes: Some(all), ..before })
        },
        (None, None) => {
            &&& action matches RelayAction::Fetch(asked) && {
                &&& asked.address() == match before.endpoint {
                    Some(place) => place,
                    None => provider::ENDPOINT@,
                }
                &&& asked.agent() == provider::agent_name(before.user_agent)
                &&& match before.preferred_region {
                    Some(region) => asked.region() == Some(region),
                    None => exists|locale: Option<Seq<char>>|
                        asked.region() == Some(#[trigger] provider::locale_region(locale)),
                }
            }
            &&& after == before
        },
    }
}

impl<C, G> ScaffoldingClient<C, G> {
    /// A client that has opened and joined no room.
    pub fn new(
        override_relay_nodes: Option<Vec<String>>,
        additional_relay_nodes: Option<Vec<String>>,
        user_agent: Option<String>,
        preferred_region: Option<String>,
    ) -> (client: Self)
        ensures
            client@ == new_client::<C, G>(
                scaffolding_center::optional_texts(override_relay_nodes),
                scaffolding_center::optional_texts(additional_relay_nodes),
                text::optional_text(user_agent),
                text::optional_text(preferred_region),
            ),
    {
        ScaffoldingClient {
            override_nodes: override_relay_nodes,
            additional_nodes: additional_relay_nodes,
            user_agent,
            preferred_region,
            endpoint: None,
            cached_nodes: None,
            centers: Vec::new(),
            guests: Vec::new(),
        }
    }

    /// The client with the node service at another place.
    pub fn with_relay_endpoint(self, endpoint: &str) -> (client: Self)
        ensures
            client@ == (ClientState { endpoint: Some(endpoint@), ..self@ }),
    {
        let mut client = self;
        client.endpoint = Some(endpoint.to_owned());
        client
    }

    fn resolved(&mut self, first: &Vec<String>) -> (used: Vec<String>)
        ensures
            text::texts(used@) == old(self)@.with_additional(text::texts(first@)),
            final(self)@ == (ClientState {
                cached_nodes: Some(text::texts(used@)),
                ..old(self)@
            }),
    {
        let used = match &self.additional_nodes {
            Some(more) => nodes::resolve(Some(first.as_slice()), Some(more.as_slice())),
            None => nodes::resolve(Some(first.as_slice()), None),
        };
        assert(text::texts(first@) + Seq::<Seq<char>>::empty() =~= text::texts(first@));
        self.cached_nodes = Some(text::copy_texts(used.as_slice()));
        used
    }

    /// What to do to get the relay nodes: those that are known are used again; where nodes are
    /// given in place of those of the node service, they and the additional ones are used; else
    /// the node service is asked.
    pub fn resolve_relay_nodes(&mut self) -> (action: RelayAction)
        ensures
            nodes_resolved(old(self)@, final(self)@, action),
    {
        if let Some(known) = &self.cached_nodes {
            return RelayAction::Use(text::copy_texts(known.as_slice()));
        }
        let given = scaffolding_center::copy_list(&self.override_nodes);
        match given {
            Some(list) => RelayAction::Use(self.resolved(&list)),
            None => {
                let asked = RelayNodeProvider::new(
                    text::copy_optional(&self.user_agent),
                    text::copy_optional(&self.preferred_region),
                );
                match &self.endpoint {
                    Some(place) => RelayAction::Fetch(asked.with_endpoint(place.as_str())),
                    None => RelayAction::Fetch(asked),
                }
            },
        }
    }

    /// Takes over the nodes of the node service: they and the additional ones are used from now
    /// on.
    pub fn fetched(&mut self, nodes: &Vec<String>) -> (used: Vec<String>)
        ensures
            text::texts(used@) == old(self)@.with_additional(text::texts(nodes@)),
            final(self)@ == old(self)@.after_fetching(text::texts(nodes@)),
    {
        self.resolved(nodes)
    }

    /// Keeps track of a room, where it was opened.
    pub fn opened(&mut self, center: C, started: Result<(), ScaffoldingError>) -> (result: Result<
        (),
        ScaffoldingError,
    >)
        ensures
            result == started,
            final(self)@ == old(self)@.after_opening(center, started is Ok),
    {
        if started.is_ok() {
            self.centers.push(center);
        }
        started
    }

    /// Keeps track of a room, where it was joined. A guest that did not get into the room is
    /// handed back with the reason, so that it can clean up.
    pub fn joined(&mut self, guest: G, connected: Result<(), ScaffoldingError>) -> (result: Result<
        (),
        (G, ScaffoldingError),
    >)
        ensures
            final(self)@ == old(self)@.after_joining(guest, connected is Ok),
            match connected {
                Ok(_) => result is Ok,
                Err(reason) => result == Err::<(), (G, ScaffoldingError)>((guest, reason)),
            },
    {
        match connected {
            Ok(_) => {
                self.guests.push(guest);
                Ok(())
            },
            Err(reason) => Err((guest, reason)),
        }
    }

    /// Hands out the rooms that were opened and those that were joined, to be closed and left.
    pub fn close_all(&mut self) -> (rooms: (Vec<C>, Vec<G>))
        ensures
            rooms.0@ == old(self)@.centers,
            rooms.1@ == old(self)@.guests,
            final(self)@ == old(self)@.after_closing(),
    {
        let mut centers: Vec<C> = Vec::new();
        let mut guests: Vec<G> = Vec::new();
        std::mem::swap(&mut centers, &mut self.centers);
        std::mem::swap(&mut guests, &mut self.guests);
        (centers, guests)
    }
}

// ---------------------------------------------------------------------------------------
// Laws
// ---------------------------------------------------------------------------------------
/// Once the relay nodes are known, they are used from then on, and nothing changes.
pub proof fn resolved_nodes_are_kept<C, G>(
    before: ClientState<C, G>,
    between: ClientState<C, G>,
    first: RelayAction,
    after: ClientState<C, G>,
    second: RelayAction,
)
    requires
        nodes_resolved(before, between, first),
        first is Use,
        nodes_resolved(between, after, second),
    ensures
        after == between,
        second matches RelayAction::Use(used) && text::texts(used@) == text::texts(first->Use_0@),
{
}

/// Whether a list of nodes is a first one and, behind it, a second one, node by node.
pub open spec fn one_behind_the_other(
    all: Seq<Seq<char>>,
    first: Seq<Seq<char>>,
    second: Seq<Seq<char>>,
) -> bool {
    &&& all.len() == first.len() + second.len()
    &&& forall|i: int| 0 <= i < first.len() ==> all[i] == #[trigger] first[i]
    &&& forall|i: int| 0 <= i < second.len() ==> all[first.len() + i] == #[trigger] second[i]
}

/// A client that was created with nodes of its own uses all of them, and behind them all of the
/// additional ones, and does not ask the node service.
pub proof fn own_nodes_are_used<C, G>(
    given: Seq<Seq<char>>,
    additional: Option<Seq<Seq<char>>>,
    user_agent: Option<Seq<char>>,
    preferred_region: Option<Seq<char>>,
    after: ClientState<C, G>,
    action: RelayAction,
)
    requires
        nodes_resolved(
            new_client::<C, G>(Some(given), additional, user_agent, preferred_region),
            after,
            action,
        ),
    ensures
        action matches RelayAction::Use(used) && one_behind_the_other(
            text::texts(used@),
            given,
            match additional {
                Some(more) => more,
                None => Seq::empty(),
            },
        ) && after.cached_nodes == Some(text::texts(used@)),
        after.centers.len() == 0,
        after.guests.len() == 0,
{
}

/// A client that was created without nodes of its own asks the node service, at its usual place,
/// by the name that it was given and for the region that it was given.
pub proof fn service_is_asked_without_own_nodes<C, G>(
    additional: Option<Seq<Seq<char>>>,
    name: Seq<char>,
    region: Seq<char>,
    after: ClientState<C, G>,
    action: RelayAction,
)
    requires
        nodes_resolved(
            new_client::<C, G>(None, additional, Some(name), Some(region)),
            after,
            action,
        ),
        exists|i: int| 0 <= i < name.len() && !text::white_space(#[trigger] name[i]),
    ensures
        action matches RelayAction::Fetch(asked) && {
            &&& asked.address() == "https://nodes.qomicex.top/api/nodes"@
            &&& asked.agent() == name
            &&& asked.region() == Some(region)
        },
        after.cached_nodes is None,
{
    provider::given_name_is_used(name);
}

/// A client that was told of another place asks the node service there.
pub proof fn service_is_asked_at_its_place<C, G>(
    before: ClientState<C, G>,
    place: Seq<char>,
    after: ClientState<C, G>,
    action: RelayAction,
)
    requires
        before.endpoint == Some(place),
        before.cached_nodes is None,
        before.override_nodes is None,
        nodes_resolved(before, after, action),
    ensures
        action matches RelayAction::Fetch(asked) && asked.address() == place,
{
}

/// The nodes that the service named are used from then on, all of them and behind them all of
/// the additional ones, without asking again.
pub proof fn fetched_nodes_are_kept<C, G>(
    before: ClientState<C, G>,
    nodes: Seq<Seq<char>>,
    after: ClientState<C, G>,
    action: RelayAction,
)
    requires
        nodes_resolved(before.after_fetching(nodes), after, action),
    ensures
        action matches RelayAction::Use(used) && one_behind_the_other(
            text::texts(used@),
            nodes,
            match before.additional_nodes {
                Some(more) => more,
                None => Seq::empty(),
            },
        ),
        after == before.after_fetching(nodes),
        after.centers == before.centers,
        after.guests == before.guests,
{
}

/// Every room that was opened, and every room that was joined, is handed out when all are closed,
/// in its order, and then no longer held; rooms that could not be opened or joined never are. The
/// nodes that are known stay.
pub proof fn closing_hands_out_every_room<C, G>(
    before: ClientState<C, G>,
    center: C,
    guest: G,
    opened: bool,
    joined: bool,
)
    ensures
        ({
            let after = before.after_opening(center, opened).after_joining(guest, joined);
            &&& opened ==> after.centers == before.centers.push(center)
            &&& !opened ==> after.centers == before.centers
            &&& joined ==> after.guests == before.guests.push(guest)
            &&& !joined ==> after.guests == before.guests
            &&& after.after_closing().centers.len() == 0
            &&& after.after_closing().guests.len() == 0
            &&& after.after_closing().cached_nodes == before.cached_nodes
            &&& after.after_closing().override_nodes == before.override_nodes
            &&& after.after_closing().additional_nodes == before.additional_nodes
        }),
{
}

} // verus!
