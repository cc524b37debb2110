use walk_the_dog::game::{KeySnapshot, WalkTheDog, WalkTheDogStateMachine};
use walk_the_dog::point::Point;
use walk_the_dog::redhatboy::RedHatBoy;
use walk_the_dog::redhatboy_state::{
    Event, RedHatBoyContext, RedHatBoyStateMachine, FLOOR, JUMP_SPEED, STARTING_POINT,
};
use walk_the_dog::renderer::DrawCommand;
use walk_the_dog::sheet::{Cell, Sheet, SheetEntry, SheetRect};
use walk_the_dog::walk::Walk;

fn full_sheet() -> Sheet {
    let mut entries: Vec<SheetEntry> = Vec::new();
    let states: [(&str, u8); 5] =
        [("Idle", 29), ("Run", 23), ("Slide", 14), ("Jump", 35), ("Dead", 29)];
    for (tag, frames) in states {
        for frame in 0..=frames {
            let name = format!("{} ({}).png", tag, frame / 3 + 1);
            entries.push(SheetEntry {
                name,
                cell: Cell {
                    frame: SheetRect { x: 0, y: 0, w: 100, h: 120 },
                    sprite_source_size: SheetRect { x: 10, y: 5, w: 100, h: 120 },
                },
            });
        }
    }
    Sheet::new(entries)
}

fn obstacle_sheet() -> Sheet {
    let mut entries: Vec<SheetEntry> = Vec::new();
    for name in ["13.png", "14.png", "15.png"] {
        entries.push(SheetEntry {
            name: name.to_owned(),
            cell: Cell {
                frame: SheetRect { x: 0, y: 0, w: 128, h: 93 },
                sprite_source_size: SheetRect { x: 0, y: 0, w: 128, h: 93 },
            },
        });
    }
    Sheet::new(entries)
}

fn fresh_walk() -> Walk {
    Walk::new(full_sheet(), obstacle_sheet(), 100, 50, 600, 600)
        .expect("a complete sheet must build a world")
}

fn keys(arrow_right: bool, arrow_down: bool, space: bool, new_game: bool) -> KeySnapshot {
    KeySnapshot { arrow_right, arrow_down, space, new_game_pressed: new_game }
}

#[test]
fn arrow_right_starts_walking_and_running() {
    let machine = WalkTheDogStateMachine::new(fresh_walk());
    let (machine, effects) = machine.update(&keys(true, false, false, false));
    match &machine {
        WalkTheDogStateMachine::Walking(walk) => {
            assert!(matches!(walk.boy.state_machine, RedHatBoyStateMachine::Running(_)));
            // The run comes after the tick's animation step, so the frame
            // is freshly reset and the speed is exactly one increment.
            assert_eq!(walk.boy.state_machine.context().frame, 0);
            assert_eq!(
                walk.boy.state_machine.context().velocity.x,
                walk_the_dog::redhatboy_state::RUNNING_SPEED
            );
        },
        _ => panic!("expected the game to start walking"),
    }
    assert!(!effects.play_jump_sound && !effects.show_restart_ui && !effects.hide_restart_ui);
}

#[test]
fn ready_without_input_stays_ready() {
    let machine = WalkTheDogStateMachine::new(fresh_walk());
    let (machine, _) = machine.update(&keys(false, true, true, false));
    match &machine {
        WalkTheDogStateMachine::Ready(walk) => {
            assert!(matches!(walk.boy.state_machine, RedHatBoyStateMachine::Idle(_)));
            assert_eq!(walk.boy.state_machine.context().frame, 1);
        },
        _ => panic!("expected the game to stay ready"),
    }
}

#[test]
fn space_jumps_with_the_fixed_jump_speed() {
    // At the transition itself the vertical velocity is exactly the jump speed.
    let running = RedHatBoyStateMachine::Running(RedHatBoyContext {
        frame: 0,
        position: Point { x: STARTING_POINT, y: FLOOR },
        velocity: Point { x: 4, y: 0 },
    });
    let jumping = running.transition(Event::Jump);
    assert!(matches!(jumping, RedHatBoyStateMachine::Jumping(_)));
    assert_eq!(jumping.context().velocity.y, JUMP_SPEED);

    // Through the game flow, the same tick also applies one gravity step.
    let machine = WalkTheDogStateMachine::new(fresh_walk());
    let (machine, _) = machine.update(&keys(true, false, false, false));
    let (machine, effects) = machine.update(&keys(false, false, true, false));
    match &machine {
        WalkTheDogStateMachine::Walking(walk) => {
            assert!(matches!(walk.boy.state_machine, RedHatBoyStateMachine::Jumping(_)));
            assert_eq!(walk.boy.velocity_y(), JUMP_SPEED + 1);
        },
        _ => panic!("expected the game to keep walking"),
    }
    assert!(effects.play_jump_sound);
}

#[test]
fn knock_out_completion_freezes_the_game_on_the_same_tick() {
    let mut walk = fresh_walk();
    walk.boy = RedHatBoy {
        state_machine: RedHatBoyStateMachine::Falling(RedHatBoyContext {
            frame: 28,
            position: Point { x: STARTING_POINT, y: FLOOR },
            velocity: Point { x: 0, y: 0 },
        }),
        sprite_sheet: walk.boy.sprite_sheet,
    };
    walk.timeline = 1500;
    let machine = WalkTheDogStateMachine::Walking(walk);
    let (machine, effects) = machine.update(&keys(false, false, false, false));
    match &machine {
        WalkTheDogStateMachine::GameOver(walk) => {
            assert!(matches!(walk.boy.state_machine, RedHatBoyStateMachine::KnockedOut(_)));
        },
        _ => panic!("expected the game to end on the completing tick"),
    }
    assert!(effects.show_restart_ui);
    assert!(!effects.hide_restart_ui);
}

#[test]
fn restart_click_resets_to_a_fresh_ready_world() {
    let mut spent = fresh_walk();
    spent.boy = RedHatBoy {
        state_machine: RedHatBoyStateMachine::KnockedOut(RedHatBoyContext {
            frame: 29,
            position: Point { x: STARTING_POINT, y: 300 },
            velocity: Point { x: 0, y: 0 },
        }),
        sprite_sheet: spent.boy.sprite_sheet,
    };
    spent.timeline = 1200;
    let machine = WalkTheDogStateMachine::GameOver(spent);

    // Without the signal the game stays frozen.
    let (machine, effects) = machine.update(&keys(true, true, true, false));
    assert!(matches!(machine, WalkTheDogStateMachine::GameOver(_)));
    assert!(!effects.hide_restart_ui);

    // The one-shot restart signal starts a new round.
    let (machine, effects) = machine.update(&keys(false, false, false, true));
    match &machine {
        WalkTheDogStateMachine::Ready(walk) => {
            assert!(matches!(walk.boy.state_machine, RedHatBoyStateMachine::Idle(_)));
            assert_eq!(walk.boy.state_machine.context().position.x, STARTING_POINT);
            assert_eq!(walk.boy.state_machine.context().position.y, FLOOR);
            assert_eq!(walk.obstacles.len(), 1);
            assert_eq!(walk.obstacles[0].right(), 270);
            assert_eq!(walk.timeline, 470);
        },
        _ => panic!("expected a fresh ready world"),
    }
    assert!(effects.hide_restart_ui);
}

#[test]
fn initialize_only_once() {
    let game = WalkTheDog::new();
    let game = match game.initialize_with(fresh_walk()) {
        Ok(g) => g,
        Err(_) => panic!("first initialization must succeed"),
    };
    match game.initialize_with(fresh_walk()) {
        Ok(_) => panic!("second initialization must be refused"),
        Err(g) => assert!(g.machine.is_some()),
    }
}

#[test]
fn game_draw_clears_the_stage_first() {
    let game = WalkTheDog::new();
    let commands = game.draw();
    assert_eq!(commands.len(), 1);
    match commands[0] {
        DrawCommand::Clear { rect } => {
            assert_eq!(rect.width, 600);
            assert_eq!(rect.height, 600);
        },
        _ => panic!("expected the clear command"),
    }

    let game = match game.initialize_with(fresh_walk()) {
        Ok(g) => g,
        Err(_) => panic!("first initialization must succeed"),
    };
    let commands = game.draw();
    assert!(commands.len() > 1);
    assert!(matches!(commands[0], DrawCommand::Clear { .. }));
}

#[test]
fn update_before_initialization_is_a_no_op() {
    let mut game = WalkTheDog::new();
    let effects = game.update(&keys(true, true, true, true));
    assert!(game.machine.is_none());
    assert!(!effects.play_jump_sound && !effects.show_restart_ui && !effects.hide_restart_ui);
}
