use crate::game::entityid::EntityId;
use crate::game::eventqueue::{EventQueue, GameEvent};
use crate::game::input::InputFrame;
use vstd::prelude::*;

verus! {

/// How many ticks a player waits after placing a brick before it can place
/// the next.
pub const PLACE_COOLDOWN_TICKS: u16 = 10;

/// How many bricks of one player can stand at a time.
pub const MAX_BRICKS: u8 = 3;

/// What a player's controller remembers between ticks.
///
/// `accel`, `max_speed` and `last_angle` are bit patterns of
/// single-precision numbers: they are kept here and computed with elsewhere.
pub struct ControllerModel {
    pub accel: u32,
    pub max_speed: u32,
    pub last_angle: u32,
    /// Whether the next press of the grab button shoots.
    pub action_toggle: bool,
    /// Whether the grab button was down at the last tick.
    pub prev_action: bool,
    pub curr_brick_count: u8,
    pub max_bricks: u8,
    pub place_cooldown: u16,
    pub is_holding: bool,
    pub player_id: EntityId,
    pub input: InputFrame,
}

impl ControllerModel {
    /// The controller of a player who has done nothing yet.
    pub open spec fn initial(accel: u32, max_speed: u32, player_id: EntityId) -> ControllerModel {
        ControllerModel {
            accel,
            max_speed,
            last_angle: 0,
            action_toggle: false,
            prev_action: false,
            curr_brick_count: 0,
            max_bricks: MAX_BRICKS,
            place_cooldown: 0,
            is_holding: false,
            player_id,
            input: InputFrame {
                move_axis: crate::game::input::Vec2 { x: 0, y: 0 },
                look: crate::game::input::Vec2 { x: 0, y: 0 },
                buttons: crate::game::input::Buttons { grab: false, place: false, dash: false },
            },
        }
    }

    /// The player may place a brick: it has one left and has waited long
    /// enough.
    pub open spec fn can_place(self) -> bool {
        self.curr_brick_count < self.max_bricks && self.place_cooldown == 0
    }

    /// The grab button was just pressed: it is down and was not at the last
    /// tick.
    pub open spec fn grab_pressed(self) -> bool {
        self.input.buttons.grab && !self.prev_action
    }

    /// The controller after the grab button was looked at. A press flips
    /// between grabbing and shooting.
    pub open spec fn after_grab(self) -> ControllerModel {
        ControllerModel {
            prev_action: self.input.buttons.grab,
            action_toggle: if self.grab_pressed() {
                !self.action_toggle
            } else {
                self.action_toggle
            },
            ..self
        }
    }

    /// What a look at the grab button causes: nothing without a press; with
    /// one, by turns an attempt to grab and a shot.
    pub open spec fn grab_events(self) -> Seq<GameEvent> {
        if !self.grab_pressed() {
            Seq::empty()
        } else if !self.action_toggle {
            seq![GameEvent::TryGrab { player_id: self.player_id }]
        } else {
            seq![GameEvent::Shoot { player_id: self.player_id }]
        }
    }
}

/// A player's controller.
pub struct PlayerController {
    accel: u32,
    max_speed: u32,
    last_angle: u32,
    action_toggle: bool,
    prev_action: bool,
    curr_brick_count: u8,
    max_bricks: u8,
    place_cooldown: u16,
    is_holding: bool,
    player_id: EntityId,
    input: InputFrame,
}

impl View for PlayerController {
    type V = ControllerModel;

    closed spec fn view(&self) -> ControllerModel {
        ControllerModel {
            accel: self.accel,
            max_speed: self.max_speed,
            last_angle: self.last_angle,
            action_toggle: self.action_toggle,
            prev_action: self.prev_action,
            curr_brick_count: self.curr_brick_count,
            max_bricks: self.max_bricks,
            place_cooldown: self.place_cooldown,
            is_holding: self.is_holding,
            player_id: self.player_id,
            input: self.input,
        }
    }
}

impl PlayerController {
    /// The controller of the player `player_id`, with the bit patterns of
    /// its acceleration and of its highest speed.
    pub fn new(accel: u32, max_speed: u32, player_id: EntityId) -> (c: Self)
        ensures
            c@ == ControllerModel::initial(accel, max_speed, player_id),
    {
        PlayerController {
            accel,
            max_speed,
            last_angle: 0,
            action_toggle: false,
            prev_action: false,
            curr_brick_count: 0,
            max_bricks: MAX_BRICKS,
            place_cooldown: 0,
            is_holding: false,
            player_id,
            input: InputFrame::new(),
        }
    }

    /// The bit pattern of the player's acceleration.
    pub fn accel(&self) -> (r: u32)
        ensures
            r == self@.accel,
    {
        self.accel
    }

    /// The bit pattern of the player's highest speed.
    pub fn max_speed(&self) -> (r: u32)
        ensures
            r == self@.max_speed,
    {
        self.max_speed
    }

    /// The bit pattern of the angle the player looked at last.
    pub fn last_angle(&self) -> (r: u32)
        ensures
            r == self@.last_angle,
    {
        self.last_angle
    }

    /// The player that this controller belongs to.
    pub fn player_id(&self) -> (r: EntityId)
        ensures
            r == self@.player_id,
    {
        self.player_id
    }

    /// The input of this tick.
    pub fn input(&self) -> (r: InputFrame)
        ensures
            r == self@.input,
    {
        self.input
    }

    /// Whether the player holds the ball.
    pub fn is_holding(&self) -> (b: bool)
        ensures
            b == self@.is_holding,
    {
        self.is_holding
    }

    /// Notes whether the player holds the ball.
    pub fn set_holding(&mut self, holding: bool)
        ensures
            final(self)@ == (ControllerModel { is_holding: holding, ..old(self)@ }),
    {
        self.is_holding = holding;
    }

    /// Takes the input of this tick.
    pub fn set_input(&mut self, input: InputFrame)
        ensures
            final(self)@ == (ControllerModel { input, ..old(self)@ }),
    {
        self.input = input;
    }

    /// Notes the angle the player looks at, as a bit pattern.
    pub fn set_last_angle(&mut self, angle: u32)
        ensures
            final(self)@ == (ControllerModel { last_angle: angle, ..old(self)@ }),
    {
        self.last_angle = angle;
    }

    /// One tick passes: the wait after a brick grows one tick shorter.
    pub fn tick(&mut self)
        ensures
            final(self)@ == (ControllerModel {
                place_cooldown: if old(self)@.place_cooldown > 0 {
                    (old(self)@.place_cooldown - 1) as u16
                } else {
                    0
                },
                ..old(self)@
            }),
    {
        if self.place_cooldown > 0 {
            self.place_cooldown -= 1;
        }
    }

    /// A brick of the player was placed: one more stands, and the wait for
    /// the next begins.
    pub fn add_brick(&mut self)
        ensures
            final(self)@ == (ControllerModel {
                curr_brick_count: if old(self)@.curr_brick_count < u8::MAX {
                    (old(self)@.curr_brick_count + 1) as u8
                } else {
                    u8::MAX
                },
                place_cooldown: PLACE_COOLDOWN_TICKS,
                ..old(self)@
            }),
    {
        if self.curr_brick_count < u8::MAX {
            self.curr_brick_count += 1;
        }
        self.on_place();
    }

    /// A brick of the player is gone: one fewer stands.
    pub fn remove_brick(&mut self)
        ensures
            final(self)@ == (ControllerModel {
                curr_brick_count: if old(self)@.curr_brick_count > 0 {
                    (old(self)@.curr_brick_count - 1) as u8
                } else {
                    0
                },
                ..old(self)@
            }),
    {
        if self.curr_brick_count > 0 {
            self.curr_brick_count -= 1;
        }
    }

    /// A round ends: no brick stands, nothing is held, no press is
    /// remembered.
    pub fn reset_player(&mut self)
        ensures
            final(self)@ == (ControllerModel {
                curr_brick_count: 0,
                place_cooldown: 0,
                is_holding: false,
                action_toggle: false,
                prev_action: false,
                ..old(self)@
            }),
    {
        self.curr_brick_count = 0;
        self.place_cooldown = 0;
        self.is_holding = false;
        self.action_toggle = false;
        self.prev_action = false;
    }

    /// Whether the player may place a brick.
    pub fn can_place(&self) -> (b: bool)
        ensures
            b == self@.can_place(),
    {
        if self.curr_brick_count >= self.max_bricks {
            return false;
        }
        self.place_cooldown == 0
    }

    /// Looks at the grab button of this tick's input and queues what a
    /// press causes.
    pub fn handle_grab(&mut self, events: &mut EventQueue)
        ensures
            final(self)@ == old(self)@.after_grab(),
            final(events)@ == old(events)@ + old(self)@.grab_events(),
    {
        if self.input.buttons.grab {
            if self.input.buttons.grab != self.prev_action {
                self.prev_action = self.input.buttons.grab;
                self.handle_action(events);
            }
        } else {
            self.prev_action = false;
        }
        assert(events@ =~= old(events)@ + old(self)@.grab_events());
    }

    fn handle_action(&mut self, events: &mut EventQueue)
        ensures
            final(self)@ == (ControllerModel {
                action_toggle: !old(self)@.action_toggle,
                ..old(self)@
            }),
            final(events)@ == old(events)@.push(
                if !old(self)@.action_toggle {
                    GameEvent::TryGrab { player_id: old(self)@.player_id }
                } else {
                    GameEvent::Shoot { player_id: old(self)@.player_id }
                },
            ),
    {
        self.action_toggle = !self.action_toggle;
        if self.action_toggle {
            events.push(GameEvent::TryGrab { player_id: self.player_id });
        } else {
            events.push(GameEvent::Shoot { player_id: self.player_id });
        }
    }

    fn on_place(&mut self)
        ensures
            final(self)@ == (ControllerModel {
                place_cooldown: PLACE_COOLDOWN_TICKS,
                ..old(self)@
            }),
    {
        self.place_cooldown = PLACE_COOLDOWN_TICKS;
    }
}

} // verus!
