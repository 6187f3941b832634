//! The players of a room.
use vstd::prelude::*;

use crate::text;

verus! {

/// The role of a player.
#[derive(Debug, Clone, Copy, PartialEq, Eq, Structural)]
pub enum PlayerKind {
    /// Opened the room.
    Host,
    /// Joined the room.
    Guest,
}

impl Default for PlayerKind {
    fn default() -> (kind: Self)
        ensures
            kind == PlayerKind::Host,
    {
        PlayerKind::Host
    }
}

/// A player.
#[derive(Debug, PartialEq, Eq)]
pub struct PlayerInfo {
    /// The player's name.
    pub name: String,
    /// The identifier of the player's machine.
    pub machine_id: String,
    /// The identifier of the player's node in the virtual network.
    pub easytier_id: Option<String>,
    /// The launcher that the player uses.
    pub vendor: String,
    /// The player's role.
    pub kind: PlayerKind,
}

/// A player as the players of a room see one another: the members of a JSON object.
#[derive(Debug, PartialEq, Eq)]
pub struct PlayerProfileEntry {
    /// The player's name.
    pub name: String,
    /// The identifier of the player's machine.
    pub machine_id: String,
    /// The identifier of the player's node in the virtual network.
    pub easytier_id: Option<String>,
    /// The launcher that the player uses.
    pub vendor: String,
    /// The player's role: `HOST` or `GUEST`.
    pub kind: Option<String>,
}

/// What a player holds.
#[verifier::ext_equal]
pub struct PlayerView {
    pub name: Seq<char>,
    pub machine_id: Seq<char>,
    pub easytier_id: Option<Seq<char>>,
    pub vendor: Seq<char>,
    pub kind: PlayerKind,
}

/// What an entry holds.
#[verifier::ext_equal]
pub struct EntryView {
    pub name: Seq<char>,
    pub machine_id: Seq<char>,
    pub easytier_id: Option<Seq<char>>,
    pub vendor: Seq<char>,
    pub kind: Option<Seq<char>>,
}

impl View for PlayerInfo {
    type V = PlayerView;

    open spec fn view(&self) -> PlayerView {
        PlayerView {
            name: self.name@,
            machine_id: self.machine_id@,
            easytier_id: text::optional_text(self.easytier_id),
            vendor: self.vendor@,
            kind: self.kind,
        }
    }
}

impl View for PlayerProfileEntry {
    type V = EntryView;

    open spec fn view(&self) -> EntryView {
        EntryView {
            name: self.name@,
            machine_id: self.machine_id@,
            easytier_id: text::optional_text(self.easytier_id),
            vendor: self.vendor@,
            kind: text::optional_text(self.kind),
        }
    }
}

/// What a list of players holds.
pub open spec fn player_views(players: Seq<PlayerInfo>) -> Seq<PlayerView> {
    players.map_values(|p: PlayerInfo| p@)
}

impl Clone for PlayerInfo {
    fn clone(&self) -> (copy: Self)
        ensures
            copy@ == self@,
    {
        PlayerInfo {
            name: self.name.clone(),
            machine_id: self.machine_id.clone(),
            easytier_id: text::copy_optional(&self.easytier_id),
            vendor: self.vendor.clone(),
            kind: self.kind,
        }
    }
}

impl Clone for PlayerProfileEntry {
    fn clone(&self) -> (copy: Self)
        ensures
            copy@ == self@,
    {
        PlayerProfileEntry {
            name: self.name.clone(),
            machine_id: self.machine_id.clone(),
            easytier_id: text::copy_optional(&self.easytier_id),
            vendor: self.vendor.clone(),
            kind: text::copy_optional(&self.kind),
        }
    }
}

impl Default for PlayerInfo {
    /// A host of whom nothing is known.
    fn default() -> (player: Self)
        ensures
            player@ == (PlayerView {
                name: Seq::empty(),
                machine_id: Seq::empty(),
                easytier_id: None,
                vendor: Seq::empty(),
                kind: PlayerKind::Host,
            }),
    {
        PlayerInfo {
            name: String::new(),
            machine_id: String::new(),
            easytier_id: None,
            vendor: String::new(),
            kind: PlayerKind::Host,
        }
    }
}

impl Default for PlayerProfileEntry {
    /// An entry that says nothing.
    fn default() -> (entry: Self)
        ensures
            entry@ == (EntryView {
                name: Seq::empty(),
                machine_id: Seq::empty(),
                easytier_id: None,
                vendor: Seq::empty(),
                kind: None,
            }),
    {
        PlayerProfileEntry {
            name: String::new(),
            machine_id: String::new(),
            easytier_id: None,
            vendor: String::new(),
            kind: None,
        }
    }
}

} // verus!
