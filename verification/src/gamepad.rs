//! The set of connected gamepads, kept up to date from gamepad events.
//!
//! The set is the engine's own hash set (`bevy::utils::HashSet`). Verus cannot
//! declare that type: its third generic parameter, the allocator, is bounded
//! by a trait of a crate that this library cannot name. So the set is held in
//! a private field of an opaque struct, `GamepadSet`, whose contents are named
//! by `gamepad_ids` and changed only through the wrappers below.
use vstd::prelude::*;

verus! {

/// What happened to a gamepad.
#[derive(PartialEq, Eq, Structural, Debug, Clone, Copy)]
pub enum GamepadEventType {
    Connected,
    Disconnected,
    ButtonChanged,
    AxisChanged,
}

/// A hash set of gamepad identifiers, as the engine keeps it.
#[verifier::external_body]
pub struct GamepadSet {
    set: bevy::utils::HashSet<usize>,
}

/// The identifiers that a gamepad set holds.
pub uninterp spec fn gamepad_ids(s: GamepadSet) -> Set<usize>;

impl GamepadSet {
    /// `HashSet::default`: a set that holds nothing.
    #[verifier::external_body]
    fn empty() -> (r: Self)
        ensures
            gamepad_ids(r) == Set::<usize>::empty(),
    {
        GamepadSet { set: bevy::utils::HashSet::default() }
    }

    /// `HashSet::insert`: the set then holds `id`; the answer is whether it
    /// did not hold it before.
    #[verifier::external_body]
    fn insert(&mut self, id: usize) -> (r: bool)
        ensures
            gamepad_ids(*final(self)) == gamepad_ids(*old(self)).insert(id),
            r == !gamepad_ids(*old(self)).contains(id),
    {
        self.set.insert(id)
    }

    /// `HashSet::remove`: the set then no longer holds `id`; the answer is
    /// whether it held it before.
    #[verifier::external_body]
    fn remove(&mut self, id: usize) -> (r: bool)
        ensures
            gamepad_ids(*final(self)) == gamepad_ids(*old(self)).remove(id),
            r == gamepad_ids(*old(self)).contains(id),
    {
        self.set.remove(&id)
    }

    /// `HashSet::contains`: whether the set holds `id`.
    #[verifier::external_body]
    fn contains(&self, id: usize) -> (r: bool)
        ensures
            r == gamepad_ids(*self).contains(id),
    {
        self.set.contains(&id)
    }

    /// `HashSet::len`: how many identifiers the set holds.
    #[verifier::external_body]
    fn len(&self) -> (r: usize)
        ensures
            r == gamepad_ids(*self).len(),
    {
        self.set.len()
    }
}

/// The gamepads that are connected, by their identifiers.
pub struct GamepadLobby {
    pub gamepads: GamepadSet,
}

impl GamepadLobby {
    /// No gamepad connected.
    pub fn new() -> (r: Self)
        ensures
            gamepad_ids(r.gamepads) == Set::<usize>::empty(),
    {
        GamepadLobby { gamepads: GamepadSet::empty() }
    }

    /// Whether the gamepad `id` is connected.
    pub fn is_connected(&self, id: usize) -> (r: bool)
        ensures
            r == gamepad_ids(self.gamepads).contains(id),
    {
        self.gamepads.contains(id)
    }

    /// How many gamepads are connected.
    pub fn len(&self) -> (r: usize)
        ensures
            r == gamepad_ids(self.gamepads).len(),
    {
        self.gamepads.len()
    }
}

/// A connected gamepad joins the lobby and a disconnected one leaves it; a
/// button or axis change leaves the lobby as it is.
pub fn gamepad_stage_preupdate_system(lobby: &mut GamepadLobby, gamepad: usize, event: GamepadEventType)
    ensures
        event == GamepadEventType::Connected ==> gamepad_ids(final(lobby).gamepads) == gamepad_ids(
            old(lobby).gamepads,
        ).insert(gamepad),
        event == GamepadEventType::Disconnected ==> gamepad_ids(final(lobby).gamepads) == gamepad_ids(
            old(lobby).gamepads,
        ).remove(gamepad),
        (event == GamepadEventType::ButtonChanged || event == GamepadEventType::AxisChanged) ==> gamepad_ids(
            final(lobby).gamepads,
        ) == gamepad_ids(old(lobby).gamepads),
{
    match event {
        GamepadEventType::Connected => {
            lobby.gamepads.insert(gamepad);
        },
        GamepadEventType::Disconnected => {
            lobby.gamepads.remove(gamepad);
        },
        GamepadEventType::ButtonChanged => {},
        GamepadEventType::AxisChanged => {},
    }
}

} // verus!
