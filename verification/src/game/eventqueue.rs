use crate::game::entityid::EntityId;
use crate::game::input::Vec2;
use vstd::prelude::*;

verus! {

/// Something that happened in a tick of the simulation and is acted on in
/// the next.
#[derive(Clone, Copy, Debug, PartialEq, Eq, Structural)]
pub enum GameEvent {
    GoalScored { team_id: u8 },
    ResetScore,
    TryGrab { player_id: EntityId },
    Shoot { player_id: EntityId },
    Place { player_id: EntityId, pos: Vec2 },
    Die { owner_id: EntityId, brick_id: EntityId },
}

/// The events of a tick, in the order in which they happened.
pub struct EventQueue {
    events: Vec<GameEvent>,
}

impl View for EventQueue {
    type V = Seq<GameEvent>;

    closed spec fn view(&self) -> Seq<GameEvent> {
        self.events@
    }
}

impl EventQueue {
    /// A queue with no event.
    pub fn new() -> (q: Self)
        ensures
            q@ == Seq::<GameEvent>::empty(),
    {
        EventQueue { events: Vec::new() }
    }

    /// Puts `e` behind the events that wait.
    pub fn push(&mut self, e: GameEvent)
        ensures
            final(self)@ == old(self)@.push(e),
    {
        self.events.push(e);
    }

    /// Takes every event out, oldest first, and leaves the queue empty.
    pub fn drain(&mut self) -> (taken: Vec<GameEvent>)
        ensures
            taken@ == old(self)@,
            final(self)@ == Seq::<GameEvent>::empty(),
    {
        let mut taken: Vec<GameEvent> = Vec::new();
        std::mem::swap(&mut taken, &mut self.events);
        taken
    }
}

} // verus!
