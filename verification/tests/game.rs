use netsession::game::entityid::EntityId;
use netsession::game::eventqueue::{EventQueue, GameEvent};
use netsession::game::input::{Buttons, InputFrame, Vec2};
use netsession::game::playercontroller::{PlayerController, MAX_BRICKS, PLACE_COOLDOWN_TICKS};
use netsession::game::world::World;
use netsession::game::scoremanager::{Color, ScoreManager, Team};

fn team(id: u8, name: &str, score: u8) -> Team {
    Team { id, name: name.to_string(), color: Color(0, 0, 255, 255), score }
}

fn scores(manager: &ScoreManager) -> Vec<u8> {
    manager.teams().iter().map(|t| t.score).collect()
}

#[test]
fn events_leave_the_queue_in_the_order_they_came() {
    let mut queue = EventQueue::new();
    assert_eq!(queue.drain(), vec![]);
    let events = vec![
        GameEvent::GoalScored { team_id: 1 },
        GameEvent::TryGrab { player_id: EntityId(2) },
        GameEvent::Place { player_id: EntityId(2), pos: Vec2 { x: 1.0f32.to_bits(), y: 2.0f32.to_bits() } },
        GameEvent::Die { owner_id: EntityId(2), brick_id: EntityId(9) },
        GameEvent::Shoot { player_id: EntityId(2) },
        GameEvent::ResetScore,
    ];
    for e in &events {
        queue.push(*e);
    }
    assert_eq!(queue.drain(), events);
    assert_eq!(queue.drain(), vec![]);
    queue.push(GameEvent::ResetScore);
    assert_eq!(queue.drain(), vec![GameEvent::ResetScore]);
}

#[test]
fn a_match_starts_at_one_point_to_win() {
    let manager = ScoreManager::new(team(0, "Blue", 0), team(1, "Red", 0));
    assert_eq!(manager.target_score(), 1);
    assert!(manager.can_score());
    assert_eq!(manager.teams().len(), 2);
    assert_eq!(manager.teams()[0], team(0, "Blue", 0));
    assert_eq!(manager.teams()[1], team(1, "Red", 0));
}

#[test]
fn the_point_that_reaches_the_target_ends_the_match() {
    let mut manager = ScoreManager::new(team(0, "Blue", 0), team(1, "Red", 0));
    manager.set_target_score(3);
    assert!(!manager.add_point(1));
    assert!(!manager.can_score());
    manager.enable_score();
    assert!(manager.can_score());
    assert!(!manager.add_point(1));
    assert!(!manager.add_point(0));
    manager.enable_score();
    assert!(manager.add_point(1));
    assert!(manager.can_score());
    assert_eq!(scores(&manager), vec![1, 3]);
}

#[test]
fn a_point_for_nobody_changes_nothing() {
    let mut manager = ScoreManager::new(team(0, "Blue", 0), team(1, "Red", 0));
    assert!(!manager.add_point(7));
    assert!(manager.can_score());
    assert_eq!(scores(&manager), vec![0, 0]);
}

#[test]
fn the_first_team_with_the_number_gets_the_point() {
    let mut manager = ScoreManager::new(team(4, "One", 0), team(4, "Other", 0));
    manager.set_target_score(9);
    manager.add_point(4);
    assert_eq!(scores(&manager), vec![1, 0]);
}

#[test]
fn a_target_of_zero_is_reached_at_once() {
    let mut manager = ScoreManager::new(team(0, "Blue", 0), team(1, "Red", 0));
    manager.set_target_score(0);
    assert!(manager.add_point(0));
}

#[test]
fn a_score_stops_at_its_highest_value() {
    let mut t = team(0, "Blue", 254);
    t.add_point();
    assert_eq!(t.score, 255);
    t.add_point();
    assert_eq!(t.score, 255);
    t.reset();
    assert_eq!(t, team(0, "Blue", 0));
}

#[test]
fn reset_clears_every_score_and_keeps_the_target() {
    let mut manager = ScoreManager::new(team(0, "Blue", 4), team(1, "Red", 2));
    manager.set_target_score(9);
    manager.add_point(0);
    assert!(!manager.can_score());
    manager.reset();
    assert!(manager.can_score());
    assert_eq!(manager.target_score(), 9);
    assert_eq!(manager.teams()[0], team(0, "Blue", 0));
    assert_eq!(manager.teams()[1], team(1, "Red", 0));
}

fn pressing(grab: bool) -> InputFrame {
    InputFrame { buttons: Buttons { grab, place: false, dash: false }, ..InputFrame::new() }
}

#[test]
fn a_fresh_controller_remembers_what_it_was_given() {
    let pc = PlayerController::new(75.0f32.to_bits(), 400.0f32.to_bits(), EntityId(3));
    assert_eq!(f32::from_bits(pc.accel()), 75.0);
    assert_eq!(f32::from_bits(pc.max_speed()), 400.0);
    assert_eq!(pc.last_angle(), 0);
    assert_eq!(pc.player_id(), EntityId(3));
    assert_eq!(pc.input(), InputFrame::new());
    assert!(!pc.is_holding());
    assert!(pc.can_place());
}

#[test]
fn presses_of_the_grab_button_grab_and_shoot_by_turns() {
    let mut pc = PlayerController::new(0, 0, EntityId(3));
    let mut events = EventQueue::new();
    pc.handle_grab(&mut events);
    assert_eq!(events.drain(), vec![]);
    pc.set_input(pressing(true));
    pc.handle_grab(&mut events);
    pc.handle_grab(&mut events);
    assert_eq!(events.drain(), vec![GameEvent::TryGrab { player_id: EntityId(3) }]);
    pc.set_input(pressing(false));
    pc.handle_grab(&mut events);
    assert_eq!(events.drain(), vec![]);
    pc.set_input(pressing(true));
    pc.handle_grab(&mut events);
    assert_eq!(events.drain(), vec![GameEvent::Shoot { player_id: EntityId(3) }]);
    pc.set_input(pressing(false));
    pc.handle_grab(&mut events);
    pc.set_input(pressing(true));
    pc.handle_grab(&mut events);
    assert_eq!(events.drain(), vec![GameEvent::TryGrab { player_id: EntityId(3) }]);
}

#[test]
fn a_brick_starts_a_wait_of_ten_ticks() {
    let mut pc = PlayerController::new(0, 0, EntityId(1));
    pc.add_brick();
    for _ in 0..PLACE_COOLDOWN_TICKS {
        assert!(!pc.can_place());
        pc.tick();
    }
    assert!(pc.can_place());
    pc.tick();
    assert!(pc.can_place());
    assert_eq!(PLACE_COOLDOWN_TICKS, 10);
}

#[test]
fn no_more_than_three_bricks_stand() {
    let mut pc = PlayerController::new(0, 0, EntityId(1));
    for _ in 0..MAX_BRICKS {
        assert!(pc.can_place());
        pc.add_brick();
        for _ in 0..PLACE_COOLDOWN_TICKS {
            pc.tick();
        }
    }
    assert!(!pc.can_place());
    pc.remove_brick();
    assert!(pc.can_place());
    for _ in 0..10 {
        pc.remove_brick();
    }
    assert!(pc.can_place());
    assert_eq!(MAX_BRICKS, 3);
}

#[test]
fn the_brick_count_stops_at_its_highest_value() {
    let mut pc = PlayerController::new(0, 0, EntityId(1));
    for _ in 0..300 {
        pc.add_brick();
    }
    for _ in 0..255 {
        pc.remove_brick();
    }
    for _ in 0..PLACE_COOLDOWN_TICKS {
        pc.tick();
    }
    assert!(pc.can_place());
}

#[test]
fn a_reset_forgets_bricks_presses_and_the_ball() {
    let mut pc = PlayerController::new(7, 8, EntityId(1));
    let mut events = EventQueue::new();
    pc.set_input(pressing(true));
    pc.handle_grab(&mut events);
    pc.set_holding(true);
    pc.set_last_angle(99);
    pc.add_brick();
    assert!(pc.is_holding());
    pc.reset_player();
    assert!(!pc.is_holding());
    assert!(pc.can_place());
    assert_eq!(pc.last_angle(), 99);
    assert_eq!((pc.accel(), pc.max_speed()), (7, 8));
    events.drain();
    pc.handle_grab(&mut events);
    assert_eq!(events.drain(), vec![GameEvent::TryGrab { player_id: EntityId(1) }]);
}

#[test]
fn entities_are_added_at_the_end_and_once() {
    let mut world = World::new();
    assert_eq!(world.len(), 0);
    assert_eq!(world.add(EntityId(5)), Some(0));
    assert_eq!(world.add(EntityId(9)), Some(1));
    assert_eq!(world.add(EntityId(5)), None);
    assert_eq!(world.len(), 2);
    assert_eq!(world.index_of(EntityId(9)), Some(1));
    assert_eq!(world.index_of(EntityId(1)), None);
}

#[test]
fn the_last_entity_takes_the_place_of_one_that_leaves() {
    let mut world = World::new();
    for id in [1u32, 2, 3, 4] {
        world.add(EntityId(id));
    }
    assert_eq!(world.remove_entity(EntityId(2)), Some(1));
    assert_eq!(world.index_of(EntityId(4)), Some(1));
    assert_eq!(world.index_of(EntityId(3)), Some(2));
    assert_eq!(world.index_of(EntityId(2)), None);
    assert_eq!(world.len(), 3);
    assert_eq!(world.remove_entity(EntityId(3)), Some(2));
    assert_eq!(world.index_of(EntityId(1)), Some(0));
    assert_eq!(world.index_of(EntityId(4)), Some(1));
    assert_eq!(world.remove_entity(EntityId(3)), None);
    assert_eq!(world.len(), 2);
}

#[test]
fn a_player_that_leaves_is_no_player_any_more() {
    let mut world = World::new();
    for id in [1u32, 2, 3] {
        world.add(EntityId(id));
        world.add_player(EntityId(id));
    }
    assert_eq!(world.player_list(), &vec![EntityId(1), EntityId(2), EntityId(3)]);
    world.remove_entity(EntityId(2));
    assert_eq!(world.player_list(), &vec![EntityId(1), EntityId(3)]);
    world.remove_entity(EntityId(7));
    assert_eq!(world.player_list(), &vec![EntityId(1), EntityId(3)]);
    world.clear();
    assert_eq!(world.len(), 0);
    assert_eq!(world.player_list(), &Vec::<EntityId>::new());
}
