use mystery_box::effect::MAX_HEALTH;
use mystery_box::geometry::{FIELD_HEIGHT, FIELD_WIDTH};
use mystery_box::placer::{collides, fallback_position, BOX_COUNT};
use mystery_box::state::PLAYER_SPEED;
use mystery_box::{
    handle_input, player_near_box, Actions, BoxEffect, GameBox, GameState, MainState, Outcome,
    Point,
};

fn idle() -> Actions {
    Actions { move_up: false, move_down: false, move_left: false, move_right: false, open: false }
}

fn open_only() -> Actions {
    Actions { open: true, ..idle() }
}

fn closed_box(x: i32, y: i32, effect: BoxEffect) -> GameBox {
    GameBox { position: Point { x, y }, effect, opened: false }
}

/// Ten boxes: the given ones first, the rest far from the player's area.
fn state_with(health: i32, player: Point, near: Vec<GameBox>) -> GameState {
    let mut boxes = near;
    let mut k = 0;
    while boxes.len() < BOX_COUNT {
        boxes.push(closed_box(400 + 40 * k, 500, BoxEffect::Injury(70)));
        k += 1;
    }
    GameState { player_health: health, opened_boxes: 0, player_position: player, boxes }
}

fn overlapping(a: &Point, b: &Point) -> bool {
    a.x + 30 > b.x && b.x + 30 > a.x && a.y + 30 > b.y && b.y + 30 > a.y
}

#[test]
fn test_player_near_box() {
    let player_position = Point { x: 50, y: 50 };
    let box_position = Point { x: 60, y: 60 };
    assert!(player_near_box(&player_position, &box_position));

    let player_position = Point { x: 50, y: 50 };
    let box_position = Point { x: 200, y: 200 };
    assert!(!player_near_box(&player_position, &box_position));
}

#[test]
fn proximity_is_strict_at_thirty() {
    let p = Point { x: 0, y: 0 };
    assert!(player_near_box(&p, &Point { x: 29, y: 0 }));
    assert!(!player_near_box(&p, &Point { x: 30, y: 0 }));
    assert!(!player_near_box(&p, &Point { x: 0, y: -30 }));
    // 18^2 + 24^2 = 900: distance exactly 30.
    assert!(!player_near_box(&p, &Point { x: 18, y: 24 }));
    assert!(player_near_box(&p, &Point { x: 18, y: 23 }));
    assert!(!player_near_box(&Point { x: i32::MIN, y: i32::MIN }, &Point { x: i32::MAX, y: i32::MAX }));
}

#[test]
fn placed_boxes_do_not_overlap() {
    for seed in 0..20u64 {
        let state = GameState::from_seed(seed);
        assert_eq!(state.boxes.len(), 10);
        for (i, a) in state.boxes.iter().enumerate() {
            assert!(a.position.x >= 0 && a.position.x < FIELD_WIDTH);
            assert!(a.position.y >= 0 && a.position.y < FIELD_HEIGHT);
            for (j, b) in state.boxes.iter().enumerate() {
                if i != j {
                    assert!(!overlapping(&a.position, &b.position));
                }
            }
        }
    }
}

#[test]
fn fresh_game_starts_as_documented() {
    let state = GameState::new();
    assert_eq!(state.player_health, 100);
    assert_eq!(state.opened_boxes, 0);
    assert_eq!(state.player_position, Point { x: 300, y: 550 });
    assert_eq!(state.boxes.len(), 10);
    assert!(state.boxes.iter().all(|b| !b.opened));
}

#[test]
fn drawn_effects_lie_in_their_ranges() {
    let mut cures = 0;
    let mut injuries = 0;
    for seed in 0..20u64 {
        for b in GameState::from_seed(seed).boxes {
            match b.effect {
                BoxEffect::Cure(n) => {
                    assert!((5..50).contains(&n));
                    cures += 1;
                }
                BoxEffect::Injury(n) => {
                    assert!((50..100).contains(&n));
                    injuries += 1;
                }
                BoxEffect::NoEffect => panic!("no-effect boxes are never drawn"),
            }
        }
    }
    assert!(cures > 0 && injuries > 0);
}

#[test]
fn seeded_games_repeat() {
    let a = GameState::from_seed(42);
    let b = GameState::from_seed(42);
    assert_eq!(a.boxes, b.boxes);
    let positions: Vec<Point> = a.boxes.iter().map(|b| b.position).collect();
    assert!(positions.iter().any(|p| p.x != 0 || p.y != 0));
}

#[test]
fn fallback_finds_a_free_spot() {
    let placed: Vec<Point> = (0..9).map(|k| Point { x: 60 * k, y: 60 * k }).collect();
    let p = fallback_position(&placed);
    assert_eq!(p, Point { x: 540, y: 540 });
    assert!(!collides(&placed, &p));
    let empty: Vec<Point> = Vec::new();
    assert_eq!(fallback_position(&empty), Point { x: 0, y: 0 });
}

#[test]
fn apply_clamps_health() {
    assert_eq!(BoxEffect::Cure(10).apply(50), 60);
    assert_eq!(BoxEffect::Cure(10).apply(95), 100);
    assert_eq!(BoxEffect::Cure(49).apply(100), 100);
    assert_eq!(BoxEffect::Injury(50).apply(80), 30);
    assert_eq!(BoxEffect::Injury(60).apply(40), 0);
    assert_eq!(BoxEffect::Injury(99).apply(0), 0);
    assert_eq!(BoxEffect::NoEffect.apply(37), 37);
}

#[test]
fn health_stays_in_bounds_over_a_sequence() {
    let effects = [
        BoxEffect::Cure(49),
        BoxEffect::Injury(99),
        BoxEffect::Injury(50),
        BoxEffect::Cure(5),
        BoxEffect::Cure(49),
        BoxEffect::Cure(49),
        BoxEffect::Cure(49),
        BoxEffect::NoEffect,
    ];
    let mut health = MAX_HEALTH;
    for e in effects {
        health = e.apply(health);
        assert!((0..=100).contains(&health));
    }
    assert_eq!(health, 100);
}

#[test]
fn effect_from_draws() {
    assert_eq!(BoxEffect::from_draws(0, 12), BoxEffect::Cure(12));
    assert_eq!(BoxEffect::from_draws(1, 70), BoxEffect::Injury(70));
    assert_eq!(BoxEffect::from_draws(2, 70), BoxEffect::NoEffect);
}

#[test]
fn opening_counts_each_box_once() {
    let mut state = state_with(
        50,
        Point { x: 0, y: 0 },
        vec![closed_box(10, 0, BoxEffect::Cure(10)), closed_box(0, 10, BoxEffect::NoEffect)],
    );
    state.try_open_nearest(true);
    assert_eq!(state.opened_boxes, 2);
    assert_eq!(state.player_health, 60);
    assert!(state.boxes[0].opened && state.boxes[1].opened);
    assert!(state.boxes[2..].iter().all(|b| !b.opened));
    assert!(state.opened_boxes <= state.boxes.len());
}

#[test]
fn opening_needs_the_open_action() {
    let mut state = state_with(50, Point { x: 0, y: 0 }, vec![closed_box(10, 0, BoxEffect::Cure(10))]);
    let before = state.clone();
    state.try_open_nearest(false);
    assert_eq!(state.opened_boxes, 0);
    assert_eq!(state.player_health, 50);
    assert_eq!(state.boxes, before.boxes);
}

#[test]
fn opening_again_in_place_changes_nothing() {
    let mut state = state_with(70, Point { x: 0, y: 0 }, vec![closed_box(5, 5, BoxEffect::Injury(50))]);
    state.try_open_nearest(true);
    assert_eq!(state.player_health, 20);
    assert_eq!(state.opened_boxes, 1);
    for _ in 0..5 {
        state.try_open_nearest(true);
        assert_eq!(state.player_health, 20);
        assert_eq!(state.opened_boxes, 1);
        assert!(state.boxes[0].opened);
    }
}

#[test]
fn movement_follows_the_actions() {
    let mut state = state_with(100, Point { x: 10, y: 10 }, vec![]);
    state.move_player(&Actions { move_right: true, move_down: true, ..idle() }, PLAYER_SPEED);
    assert_eq!(state.player_position, Point { x: 12, y: 12 });
    state.move_player(&Actions { move_left: true, move_up: true, ..idle() }, 5);
    assert_eq!(state.player_position, Point { x: 7, y: 7 });
    state.move_player(&Actions { move_left: true, move_right: true, ..idle() }, 5);
    assert_eq!(state.player_position, Point { x: 7, y: 7 });
    let mut edge = state_with(100, Point { x: -1, y: i32::MAX - 1 }, vec![]);
    edge.move_player(&Actions { move_left: true, move_down: true, ..idle() }, PLAYER_SPEED);
    assert_eq!(edge.player_position, Point { x: -3, y: i32::MAX });
}

#[test]
fn handle_input_moves_then_opens() {
    let mut state = state_with(50, Point { x: 0, y: 0 }, vec![closed_box(31, 0, BoxEffect::Cure(20))]);
    handle_input(&mut state, &Actions { move_right: true, open: true, ..idle() });
    assert_eq!(state.player_position, Point { x: 2, y: 0 });
    assert_eq!(state.player_health, 70);
    assert_eq!(state.opened_boxes, 1);
}

#[test]
fn health_bar_is_proportional() {
    let state = state_with(37, Point { x: 0, y: 0 }, vec![]);
    assert_eq!(state.health_bar_width(), 74);
    let full = state_with(100, Point { x: 0, y: 0 }, vec![]);
    assert_eq!(full.health_bar_width(), 200);
}

#[test]
fn win_scenario() {
    let state = state_with(
        100,
        Point { x: 0, y: 0 },
        vec![
            closed_box(0, 0, BoxEffect::Cure(10)),
            closed_box(40, 0, BoxEffect::Cure(10)),
            closed_box(80, 0, BoxEffect::Cure(10)),
        ],
    );
    let mut session = MainState::from_game_state(state);
    let walk = Actions { move_right: true, open: true, ..idle() };
    let mut tick = 0u64;
    while !session.is_game_over() {
        // Sixty ticks per second.
        session.update(&walk, tick / 60);
        tick += 1;
        assert!(tick < 600, "should be won within ten seconds");
    }
    let game = &session.game_window.game_state;
    assert_eq!(session.outcome, Outcome::Won);
    assert_eq!(game.opened_boxes, 3);
    assert_eq!(game.player_health, 100);
}

#[test]
fn lose_by_damage_scenario() {
    let state = state_with(40, Point { x: 0, y: 0 }, vec![closed_box(10, 10, BoxEffect::Injury(60))]);
    let mut session = MainState::from_game_state(state);
    session.update(&open_only(), 3);
    assert_eq!(session.game_window.game_state.player_health, 0);
    assert_eq!(session.game_window.game_state.opened_boxes, 1);
    assert_eq!(session.outcome, Outcome::Lost);
}

#[test]
fn lose_by_timeout_scenario() {
    let state = state_with(80, Point { x: 0, y: 0 }, vec![closed_box(10, 0, BoxEffect::Cure(5))]);
    let mut session = MainState::from_game_state(state);
    session.update(&open_only(), 30);
    assert_eq!(session.outcome, Outcome::Playing);
    session.update(&idle(), 60);
    assert_eq!(session.outcome, Outcome::Playing);
    session.update(&idle(), 61);
    assert_eq!(session.outcome, Outcome::Lost);
    assert_eq!(session.game_window.game_state.opened_boxes, 1);
    assert_eq!(session.game_window.game_state.player_health, 85);
}

#[test]
fn terminal_session_is_frozen() {
    let state = state_with(40, Point { x: 0, y: 0 }, vec![closed_box(10, 10, BoxEffect::Injury(60))]);
    let mut session = MainState::from_game_state(state);
    session.update(&open_only(), 1);
    assert!(session.is_game_over());
    let boxes = session.game_window.game_state.boxes.clone();
    let walk = Actions { move_right: true, move_down: true, open: true, ..idle() };
    for t in 2..10 {
        session.update(&walk, t);
        session.check_game_conditions(t);
    }
    let game = &session.game_window.game_state;
    assert_eq!(session.outcome, Outcome::Lost);
    assert_eq!(game.player_position, Point { x: 0, y: 0 });
    assert_eq!(game.player_health, 0);
    assert_eq!(game.opened_boxes, 1);
    assert_eq!(game.boxes, boxes);
}

#[test]
fn outcome_evaluation() {
    let playing = Outcome::Playing;
    assert_eq!(playing.evaluate(3, 1, 60), Outcome::Won);
    assert_eq!(playing.evaluate(2, 100, 60), Outcome::Playing);
    assert_eq!(playing.evaluate(3, 0, 10), Outcome::Lost);
    assert_eq!(playing.evaluate(0, 50, 61), Outcome::Lost);
    assert_eq!(playing.evaluate(5, 50, 61), Outcome::Lost);
    assert_eq!(Outcome::Won.evaluate(0, 0, 100), Outcome::Won);
    assert_eq!(Outcome::Lost.evaluate(3, 100, 0), Outcome::Lost);
    assert!(!playing.is_terminal());
    assert!(Outcome::Won.is_terminal() && Outcome::Lost.is_terminal());
}

#[test]
fn visibility_scenario() {
    let far = closed_box(450, 300, BoxEffect::Cure(10));
    let mut state = state_with(100, Point { x: 300, y: 300 }, vec![far]);
    assert!(state.visible_boxes().is_empty());
    state.player_position = Point { x: 360, y: 300 };
    assert_eq!(state.visible_boxes(), vec![far]);
    // An opened box stays hidden, even right under the player.
    state.boxes[0].opened = true;
    state.player_position = Point { x: 450, y: 300 };
    assert!(state.visible_boxes().is_empty());
}

#[test]
fn view_edges_are_strict() {
    let player = Point { x: 0, y: 0 };
    let right = closed_box(100, 0, BoxEffect::Cure(10));
    let left = closed_box(-130, 0, BoxEffect::Cure(10));
    let left_inside = closed_box(-129, 0, BoxEffect::Cure(10));
    let state = state_with(100, player, vec![right, left, left_inside]);
    assert_eq!(state.visible_boxes(), vec![left_inside]);
}

#[test]
fn fresh_session_is_playing() {
    let session = MainState::new();
    assert!(!session.is_game_over());
    assert_eq!(session.outcome, Outcome::Playing);
    assert_eq!(session.game_window.game_state.boxes.len(), 10);
}
