//! The players of a room: who joins, who is updated and who leaves.
use vstd::prelude::*;

use crate::center::client_conn;
use crate::center::client_conn::RegistryView;
use crate::json::Json;
use crate::models::player;
use crate::models::player::{PlayerInfo, PlayerKind, PlayerView};
use crate::protocols;
use crate::text;

verus! {

/// The place of the first player with a machine at or after `from`, or the number of players
/// where there is none.
pub open spec fn first_with(players: Seq<PlayerView>, machine: Seq<char>, from: int) -> int
    decreases players.len() - from,
{
    if 0 <= from < players.len() && players[from].machine_id != machine {
        first_with(players, machine, from + 1)
    } else {
        from
    }
}

/// A player after a heartbeat: name and launcher are the heartbeat's. A node identifier is
/// taken over where the heartbeat has one, and the role stays.
pub open spec fn updated(existing: PlayerView, ping: PlayerView) -> PlayerView {
    PlayerView {
        name: ping.name,
        easytier_id: if ping.easytier_id is Some {
            ping.easytier_id
        } else {
            existing.easytier_id
        },
        vendor: ping.vendor,
        ..existing
    }
}

/// The players after a heartbeat: the first player with the heartbeat's machine is updated; a
/// machine that is new joins as a guest.
pub open spec fn after_ping(players: Seq<PlayerView>, ping: PlayerView) -> Seq<PlayerView> {
    let i = first_with(players, ping.machine_id, 0);
    if i < players.len() {
        players.update(i, updated(players[i], ping))
    } else {
        players.push(PlayerView { kind: PlayerKind::Guest, ..ping })
    }
}

/// The players after a machine disconnected: its first player leaves, unless it is the host.
pub open spec fn after_disconnect(players: Seq<PlayerView>, machine: Seq<char>) -> Seq<PlayerView> {
    let i = first_with(players, machine, 0);
    if i < players.len() && players[i].kind != PlayerKind::Host {
        players.remove(i)
    } else {
        players
    }
}

/// The players after the connection of a guest ended, given the guest's machine: the identifier
/// is empty where it is not known, and then no player leaves.
pub open spec fn after_connection(players: Seq<PlayerView>, machine: Seq<char>) -> Seq<PlayerView> {
    if machine.len() == 0 {
        players
    } else {
        after_disconnect(players, machine)
    }
}

fn find_machine(players: &Vec<PlayerInfo>, machine: &str) -> (place: usize)
    ensures
        place == first_with(player::player_views(players@), machine@, 0),
        place <= players@.len(),
{
    let ghost views = player::player_views(players@);
    let mut i: usize = 0;
    while i < players.len()
        invariant
            views == player::player_views(players@),
            i <= players@.len(),
            first_with(views, machine@, 0) == first_with(views, machine@, i as int),
        decreases players@.len() - i,
    {
        assert(views[i as int] == players@[i as int]@);
        if text::same_text(players[i].machine_id.as_str(), machine) {
            return i;
        }
        i += 1;
    }
    i
}

/// Takes a heartbeat into account: updates the player with its machine, or adds the machine as
/// a guest.
pub fn note_ping(players: &mut Vec<PlayerInfo>, ping: PlayerInfo)
    ensures
        player::player_views(final(players)@) == after_ping(
            player::player_views(old(players)@),
            ping@,
        ),
{
    let ghost before = player::player_views(players@);
    let i: usize = find_machine(players, ping.machine_id.as_str());
    if i < players.len() {
        let existing = players[i].clone();
        let easytier_id = match ping.easytier_id {
            Some(id) => Some(id),
            None => existing.easytier_id,
        };
        let new = PlayerInfo {
            name: ping.name,
            machine_id: existing.machine_id,
            easytier_id,
            vendor: ping.vendor,
            kind: existing.kind,
        };
        assert(new@ =~= updated(before[i as int], ping@));
        players.set(i, new);
        assert(player::player_views(players@) =~= before.update(i as int, new@));
    } else {
        let new = PlayerInfo { kind: PlayerKind::Guest, ..ping };
        players.push(new);
        assert(player::player_views(players@) =~= before.push(new@));
    }
}

/// Takes into account that a machine disconnected: its player leaves, unless it is the host.
pub fn note_disconnect(players: &mut Vec<PlayerInfo>, machine: &str)
    ensures
        player::player_views(final(players)@) == after_disconnect(
            player::player_views(old(players)@),
            machine@,
        ),
{
    let ghost before = player::player_views(players@);
    let i: usize = find_machine(players, machine);
    if i < players.len() {
        assert(before[i as int] == players@[i as int]@);
        if players[i].kind != PlayerKind::Host {
            let _ = players.remove(i);
            assert(player::player_views(players@) =~= before.remove(i as int));
        }
    }
}

/// A copy of a list of players.
pub fn copy_players(players: &Vec<PlayerInfo>) -> (copies: Vec<PlayerInfo>)
    ensures
        player::player_views(copies@) == player::player_views(players@),
{
    let mut copies: Vec<PlayerInfo> = Vec::new();
    for i in 0..players.len()
        invariant
            copies@.len() == i,
            forall|j: int| 0 <= j < i ==> (#[trigger] copies@[j])@ == players@[j]@,
    {
        copies.push(players[i].clone());
    }
    assert(player::player_views(copies@) =~= player::player_views(players@));
    copies
}

// ---------------------------------------------------------------------------------------
// Laws
// ---------------------------------------------------------------------------------------
/// Whether no machine stands twice in a list of players.
pub open spec fn distinct_machines(players: Seq<PlayerView>) -> bool {
    forall|i: int, j: int|
        0 <= i < j < players.len() ==> (#[trigger] players[i]).machine_id != (
        #[trigger] players[j]).machine_id
}

/// Whether a machine stands in a list of players.
pub open spec fn has_machine(players: Seq<PlayerView>, machine: Seq<char>) -> bool {
    exists|i: int| 0 <= i < players.len() && (#[trigger] players[i]).machine_id == machine
}

/// The hosts in a list of players.
pub open spec fn hosts(players: Seq<PlayerView>) -> Seq<PlayerView> {
    players.filter(|p: PlayerView| p.kind == PlayerKind::Host)
}

/// Where the first player with a machine is.
pub proof fn first_with_is_first(players: Seq<PlayerView>, machine: Seq<char>, from: int)
    requires
        0 <= from <= players.len(),
    ensures
        ({
            let i = first_with(players, machine, from);
            &&& from <= i <= players.len()
            &&& i < players.len() ==> players[i].machine_id == machine
            &&& forall|j: int|
                from <= j < i ==> (#[trigger] players[j]).machine_id != machine
        }),
    decreases players.len() - from,
{
    if from < players.len() && players[from].machine_id != machine {
        first_with_is_first(players, machine, from + 1);
    }
}

/// The place of a player whose machine no earlier player has.
proof fn first_with_is(players: Seq<PlayerView>, machine: Seq<char>, i: int)
    requires
        0 <= i < players.len(),
        players[i].machine_id == machine,
        forall|j: int| 0 <= j < i ==> (#[trigger] players[j]).machine_id != machine,
    ensures
        first_with(players, machine, 0) == i,
{
    first_with_is_first(players, machine, 0);
    let k = first_with(players, machine, 0);
    if k < i {
        assert(players[k].machine_id != machine);
    }
}

/// After a heartbeat of a listed machine its player has the heartbeat's name and launcher, and
/// the node identifier that the heartbeat names, whatever it had before; only a heartbeat
/// without an identifier keeps the earlier one. Role and place stay, and so do all others.
pub proof fn heartbeat_is_taken_over(players: Seq<PlayerView>, ping: PlayerView, i: int)
    requires
        0 <= i < players.len(),
        players[i].machine_id == ping.machine_id,
        forall|j: int| 0 <= j < i ==> (#[trigger] players[j]).machine_id != ping.machine_id,
    ensures
        ({
            let after = after_ping(players, ping);
            &&& after.len() == players.len()
            &&& after[i].name == ping.name
            &&& after[i].vendor == ping.vendor
            &&& after[i].machine_id == ping.machine_id
            &&& after[i].kind == players[i].kind
            &&& ping.easytier_id is Some ==> after[i].easytier_id == ping.easytier_id
            &&& ping.easytier_id is None ==> after[i].easytier_id == players[i].easytier_id
            &&& forall|j: int|
                0 <= j < players.len() && j != i ==> #[trigger] after[j] == players[j]
        }),
{
    first_with_is(players, ping.machine_id, i);
}

/// A machine that is not listed joins behind all others, as a guest, with all that its heartbeat
/// tells.
pub proof fn newcomer_is_listed_last(players: Seq<PlayerView>, ping: PlayerView)
    requires
        forall|j: int|
            0 <= j < players.len() ==> (#[trigger] players[j]).machine_id != ping.machine_id,
    ensures
        ({
            let after = after_ping(players, ping);
            &&& after.len() == players.len() + 1
            &&& forall|j: int| 0 <= j < players.len() ==> #[trigger] after[j] == players[j]
            &&& after.last().name == ping.name
            &&& after.last().machine_id == ping.machine_id
            &&& after.last().easytier_id == ping.easytier_id
            &&& after.last().vendor == ping.vendor
            &&& after.last().kind is Guest
        }),
{
    first_with_is_first(players, ping.machine_id, 0);
}

/// Of two heartbeats of a machine the later one counts, where it names a node identifier: the
/// list is as if the earlier one had never come.
pub proof fn later_heartbeat_counts(players: Seq<PlayerView>, first: PlayerView, second: PlayerView)
    requires
        first.machine_id == second.machine_id,
        second.easytier_id is Some,
    ensures
        after_ping(after_ping(players, first), second) == after_ping(players, second),
{
    let i = first_with(players, first.machine_id, 0);
    first_with_is_first(players, first.machine_id, 0);
    let between = after_ping(players, first);
    assert forall|j: int| 0 <= j < i implies (#[trigger] between[j]).machine_id
        != first.machine_id by {
        assert(between[j] == players[j]);
    }
    first_with_is(between, first.machine_id, i);
    assert(after_ping(between, second) =~= after_ping(players, second));
}

/// Heartbeats of different machines that are listed do not interfere: their order does not
/// matter.
pub proof fn heartbeats_are_independent(players: Seq<PlayerView>, a: PlayerView, b: PlayerView)
    requires
        a.machine_id != b.machine_id,
        has_machine(players, a.machine_id),
        has_machine(players, b.machine_id),
    ensures
        after_ping(after_ping(players, a), b) == after_ping(after_ping(players, b), a),
{
    first_with_is_first(players, a.machine_id, 0);
    first_with_is_first(players, b.machine_id, 0);
    let i = first_with(players, a.machine_id, 0);
    let k = first_with(players, b.machine_id, 0);
    let one = after_ping(players, a);
    let two = after_ping(players, b);
    assert forall|j: int| 0 <= j < k implies (#[trigger] one[j]).machine_id != b.machine_id by {
        assert(players[j].machine_id != b.machine_id);
    }
    assert forall|j: int| 0 <= j < i implies (#[trigger] two[j]).machine_id != a.machine_id by {
        assert(players[j].machine_id != a.machine_id);
    }
    first_with_is(one, b.machine_id, k);
    first_with_is(two, a.machine_id, i);
    assert(after_ping(one, b) =~= after_ping(two, a));
}

/// When a machine disconnects, its player leaves where it is a guest, and the others close up in
/// their order; a host stays, and so does everybody where the machine is not listed.
pub proof fn guest_leaves_and_host_stays(players: Seq<PlayerView>, machine: Seq<char>, i: int)
    requires
        0 <= i <= players.len(),
        i < players.len() ==> players[i].machine_id == machine,
        forall|j: int| 0 <= j < i ==> (#[trigger] players[j]).machine_id != machine,
    ensures
        i < players.len() && players[i].kind is Guest ==> after_disconnect(players, machine)
            == players.take(i) + players.skip(i + 1),
        i == players.len() || players[i].kind is Host ==> after_disconnect(players, machine)
            == players,
{
    first_with_is_first(players, machine, 0);
    if i < players.len() {
        first_with_is(players, machine, i);
        assert(players.remove(i) =~= players.take(i) + players.skip(i + 1));
    }
}

/// When a connection ends, its guest leaves as if its machine had disconnected; a connection of
/// which no machine is known takes nobody along, whoever is listed.
pub proof fn unknown_connection_takes_nobody(players: Seq<PlayerView>, machine: Seq<char>)
    ensures
        after_connection(players, Seq::empty()) == players,
        machine != Seq::<char>::empty() ==> after_connection(players, machine)
            == after_disconnect(players, machine),
{
    if machine.len() == 0 {
        assert(machine =~= Seq::<char>::empty());
    }
}

/// A heartbeat never adds a machine that is there, and never changes who the machines are: a
/// list without duplicates stays one.
pub proof fn ping_keeps_machines_distinct(players: Seq<PlayerView>, ping: PlayerView)
    requires
        distinct_machines(players),
    ensures
        distinct_machines(after_ping(players, ping)),
        has_machine(players, ping.machine_id) ==> after_ping(players, ping).len() == players.len(),
        has_machine(after_ping(players, ping), ping.machine_id),
{
    first_with_is_first(players, ping.machine_id, 0);
    let i = first_with(players, ping.machine_id, 0);
    let after = after_ping(players, ping);
    if i < players.len() {
        assert(after[i].machine_id == ping.machine_id);
        assert forall|a: int, b: int| 0 <= a < b < after.len() implies (
        #[trigger] after[a]).machine_id != (#[trigger] after[b]).machine_id by {
            assert(players[a].machine_id != players[b].machine_id);
        }
    } else {
        assert(after[players.len() as int].machine_id == ping.machine_id);
    }
}

/// A disconnection keeps a list without duplicates one.
pub proof fn disconnect_keeps_machines_distinct(players: Seq<PlayerView>, machine: Seq<char>)
    requires
        distinct_machines(players),
    ensures
        distinct_machines(after_disconnect(players, machine)),
{
    let i = first_with(players, machine, 0);
    first_with_is_first(players, machine, 0);
    let after = after_disconnect(players, machine);
    if i < players.len() && players[i].kind != PlayerKind::Host {
        assert forall|a: int, b: int| 0 <= a < b < after.len() implies (
        #[trigger] after[a]).machine_id != (#[trigger] after[b]).machine_id by {
            let x = if a < i { a } else { a + 1 };
            let y = if b < i { b } else { b + 1 };
            assert(after[a] == players[x] && after[b] == players[y]);
        }
    }
}

/// The same heartbeat a second time changes nothing.
pub proof fn ping_is_idempotent(players: Seq<PlayerView>, ping: PlayerView)
    ensures
        after_ping(after_ping(players, ping), ping) == after_ping(players, ping),
{
    first_with_is_first(players, ping.machine_id, 0);
    let i = first_with(players, ping.machine_id, 0);
    let after = after_ping(players, ping);
    first_with_is_first(after, ping.machine_id, 0);
    let j = first_with(after, ping.machine_id, 0);
    assert(after[i].machine_id == ping.machine_id);
    assert(forall|k: int| 0 <= k < i ==> (#[trigger] after[k]).machine_id != ping.machine_id);
    assert(i == j);
    assert(after_ping(after, ping) =~= after);
}

/// No heartbeat takes the node identifier from a player that has one, nor changes a player's
/// machine or role.
pub proof fn ping_keeps_identity(players: Seq<PlayerView>, ping: PlayerView, i: int)
    requires
        0 <= i < players.len(),
    ensures
        ({
            let after = after_ping(players, ping);
            &&& i < after.len()
            &&& after[i].machine_id == players[i].machine_id
            &&& after[i].kind == players[i].kind
            &&& players[i].easytier_id is Some ==> after[i].easytier_id is Some
            &&& players[i].machine_id != ping.machine_id ==> after[i] == players[i]
        }),
{
    first_with_is_first(players, ping.machine_id, 0);
}

/// The host is never removed by a disconnection, and nobody becomes a host by a heartbeat.
pub proof fn host_stays(players: Seq<PlayerView>, machine: Seq<char>, ping: PlayerView)
    ensures
        hosts(after_disconnect(players, machine)) == hosts(players),
        hosts(after_ping(players, ping)).len() == hosts(players).len(),
{
    let is_host = |p: PlayerView| p.kind == PlayerKind::Host;
    let i = first_with(players, machine, 0);
    first_with_is_first(players, machine, 0);
    if i < players.len() && players[i].kind != PlayerKind::Host {
        let head = players.take(i);
        let tail = players.skip(i + 1);
        assert(players =~= head + seq![players[i]] + tail);
        assert(players.remove(i) =~= head + tail);
        Seq::filter_distributes_over_add(head + seq![players[i]], tail, is_host);
        Seq::filter_distributes_over_add(head, seq![players[i]], is_host);
        Seq::filter_distributes_over_add(head, tail, is_host);
        single_host(players[i]);
        assert(hosts(players) =~= hosts(after_disconnect(players, machine)));
    }
    let k = first_with(players, ping.machine_id, 0);
    first_with_is_first(players, ping.machine_id, 0);
    if k < players.len() {
        let head = players.take(k);
        let tail = players.skip(k + 1);
        let new = updated(players[k], ping);
        assert(players =~= head + seq![players[k]] + tail);
        assert(players.update(k, new) =~= head + seq![new] + tail);
        Seq::filter_distributes_over_add(head + seq![players[k]], tail, is_host);
        Seq::filter_distributes_over_add(head, seq![players[k]], is_host);
        Seq::filter_distributes_over_add(head + seq![new], tail, is_host);
        Seq::filter_distributes_over_add(head, seq![new], is_host);
        single_host(players[k]);
        single_host(new);
    } else {
        let new = PlayerView { kind: PlayerKind::Guest, ..ping };
        assert(players.push(new) =~= players + seq![new]);
        Seq::filter_distributes_over_add(players, seq![new], is_host);
        single_host(new);
    }
}

proof fn single_host(player: PlayerView)
    ensures
        hosts(seq![player]) == (if player.kind == PlayerKind::Host {
            seq![player]
        } else {
            Seq::<PlayerView>::empty()
        }),
{
    reveal_with_fuel(Seq::filter, 2);
    assert(seq![player].drop_last() =~= Seq::<PlayerView>::empty());
    assert(Seq::<PlayerView>::empty().push(player) =~= seq![player]);
}

/// A machine that joins and disconnects leaves the list as it was.
pub proof fn disconnect_undoes_join(players: Seq<PlayerView>, ping: PlayerView)
    requires
        !has_machine(players, ping.machine_id),
    ensures
        after_disconnect(after_ping(players, ping), ping.machine_id) == players,
{
    first_with_is_first(players, ping.machine_id, 0);
    let after = after_ping(players, ping);
    first_with_is_first(after, ping.machine_id, 0);
    let i = first_with(after, ping.machine_id, 0);
    assert(after.last().machine_id == ping.machine_id);
    assert(i == players.len()) by {
        if i < players.len() {
            assert(players[i].machine_id == ping.machine_id);
        }
    }
    assert(after.remove(i) =~= players);
}

/// A guest that joins by a heartbeat and whose connection then ends leaves the list as it was,
/// where the heartbeat names its machine, as a text that is not empty.
pub proof fn guest_leaves_with_its_connection<T>(
    players: Seq<PlayerView>,
    registry: RegistryView<T>,
    client: Seq<char>,
    root: Json,
    now: u64,
)
    requires
        root.get("machine_id"@) matches Some(value) && value is Text,
        protocols::pinging_player(root).machine_id.len() > 0,
        !has_machine(players, protocols::pinging_player(root).machine_id),
    ensures
        after_connection(
            after_ping(players, protocols::pinging_player(root)),
            registry.heard_of(client, now, Ok(root)).machine_or_empty(client),
        ) == players,
{
    client_conn::heartbeat_names_the_player(registry, client, root, now);
    disconnect_undoes_join(players, protocols::pinging_player(root));
}

} // verus!
