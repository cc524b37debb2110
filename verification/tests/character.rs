use walk_the_dog::platform::Platform;
use walk_the_dog::point::Point;
use walk_the_dog::rect::Rect;
use walk_the_dog::redhatboy::{check_boy_sheet_complete, RedHatBoy};
use walk_the_dog::redhatboy_state::{
    Event, RedHatBoyContext, RedHatBoyStateMachine, FLOOR, GRAVITY, JUMP_SPEED, PLAYER_HEIGHT,
    RUNNING_SPEED, STARTING_POINT, TERMINAL_VELOCITY,
};
use walk_the_dog::sheet::{Cell, Sheet, SheetEntry, SheetRect};

fn full_sheet() -> Sheet {
    let mut entries: Vec<SheetEntry> = Vec::new();
    let states: [(&str, u8); 5] =
        [("Idle", 29), ("Run", 23), ("Slide", 14), ("Jump", 35), ("Dead", 29)];
    for (tag, frames) in states {
        for frame in 0..=frames {
            let name = format!("{} ({}).png", tag, frame / 3 + 1);
            entries.push(SheetEntry {
                name,
                cell: Cell {
                    frame: SheetRect { x: 0, y: 0, w: 100, h: 120 },
                    sprite_source_size: SheetRect { x: 10, y: 5, w: 100, h: 120 },
                },
            });
        }
    }
    Sheet::new(entries)
}

fn context(frame: u8, x: i16, y: i16, vx: i16, vy: i16) -> RedHatBoyContext {
    RedHatBoyContext {
        frame,
        position: Point { x, y },
        velocity: Point { x: vx, y: vy },
    }
}

#[test]
fn full_sheet_is_complete() {
    assert!(check_boy_sheet_complete(&full_sheet()));
    assert!(!check_boy_sheet_complete(&Sheet::new(Vec::new())));
}

#[test]
fn run_resets_frame_and_adds_exactly_one_speed_increment() {
    let idle = RedHatBoyStateMachine::Idle(context(7, STARTING_POINT, FLOOR, 0, 0));
    let running = idle.transition(Event::Run);
    assert!(matches!(running, RedHatBoyStateMachine::Running(_)));
    assert_eq!(running.context().frame, 0);
    assert_eq!(running.context().velocity.x, RUNNING_SPEED);

    let ticked = running.transition(Event::Update);
    assert_eq!(ticked.context().velocity.x, RUNNING_SPEED);
}

#[test]
fn run_right_compounds_before_any_tick() {
    let ctx = context(0, STARTING_POINT, FLOOR, 0, 0);
    let once = ctx.run_right();
    assert_eq!(once.velocity.x, RUNNING_SPEED);
    let twice = once.run_right();
    assert_eq!(twice.velocity.x, 2 * RUNNING_SPEED);
}

#[test]
fn gravity_strictly_increases_velocity_until_terminal() {
    let running = RedHatBoyStateMachine::Running(context(0, STARTING_POINT, FLOOR, 4, 0));
    let mut machine = running.transition(Event::Jump);
    assert!(matches!(machine, RedHatBoyStateMachine::Jumping(_)));
    assert_eq!(machine.context().velocity.y, JUMP_SPEED);

    let mut previous = machine.context().velocity.y;
    for _ in 0..60 {
        machine = machine.transition(Event::Update);
        let current = machine.context().velocity.y;
        if previous < TERMINAL_VELOCITY {
            assert_eq!(current, previous + GRAVITY);
        } else {
            assert_eq!(current, previous);
        }
        assert!(current <= TERMINAL_VELOCITY);
        previous = current;
    }
    assert_eq!(previous, TERMINAL_VELOCITY);
}

#[test]
fn invalid_events_are_silently_absorbed() {
    let idle = RedHatBoyStateMachine::Idle(context(3, STARTING_POINT, FLOOR, 0, 0));
    let after_slide = idle.transition(Event::Slide);
    assert!(matches!(after_slide, RedHatBoyStateMachine::Idle(_)));
    assert_eq!(after_slide.context().frame, 3);

    let after_jump = idle.transition(Event::Jump);
    assert!(matches!(after_jump, RedHatBoyStateMachine::Idle(_)));
}

#[test]
fn sliding_completes_back_to_running() {
    let mut machine = RedHatBoyStateMachine::Running(context(0, STARTING_POINT, FLOOR, 4, 0))
        .transition(Event::Slide);
    assert!(matches!(machine, RedHatBoyStateMachine::Sliding(_)));
    for _ in 0..15 {
        machine = machine.transition(Event::Update);
    }
    assert!(matches!(machine, RedHatBoyStateMachine::Running(_)));
}

#[test]
fn landing_tie_break_lands_descending_character() {
    let mut boy = RedHatBoy {
        state_machine: RedHatBoyStateMachine::Running(context(0, STARTING_POINT, 300, 4, 5)),
        sprite_sheet: full_sheet(),
    };
    let platform = Platform {
        position: Point { x: 0, y: 400 },
        sprites: Vec::new(),
        bounding_boxes: vec![Rect { position: Point { x: 0, y: 400 }, width: 384, height: 93 }],
    };
    platform.check_intersection(&mut boy);
    assert!(matches!(boy.state_machine, RedHatBoyStateMachine::Running(_)));
    assert_eq!(boy.pos_y(), 400 - PLAYER_HEIGHT);
}

#[test]
fn landing_tie_break_knocks_out_ascending_character() {
    let mut boy = RedHatBoy {
        state_machine: RedHatBoyStateMachine::Jumping(context(0, STARTING_POINT, 380, 4, -3)),
        sprite_sheet: full_sheet(),
    };
    let platform = Platform {
        position: Point { x: 0, y: 400 },
        sprites: Vec::new(),
        bounding_boxes: vec![Rect { position: Point { x: 0, y: 400 }, width: 384, height: 93 }],
    };
    platform.check_intersection(&mut boy);
    assert!(matches!(boy.state_machine, RedHatBoyStateMachine::Falling(_)));
    assert_eq!(boy.velocity_y(), 0);
    assert_eq!(boy.state_machine.context().velocity.x, 0);
}

#[test]
fn landing_tie_break_knocks_out_character_below_anchor() {
    let mut boy = RedHatBoy {
        state_machine: RedHatBoyStateMachine::Running(context(0, STARTING_POINT, 450, 4, 5)),
        sprite_sheet: full_sheet(),
    };
    let platform = Platform {
        position: Point { x: 0, y: 400 },
        sprites: Vec::new(),
        bounding_boxes: vec![Rect { position: Point { x: 0, y: 400 }, width: 384, height: 93 }],
    };
    platform.check_intersection(&mut boy);
    assert!(matches!(boy.state_machine, RedHatBoyStateMachine::Falling(_)));
}

#[test]
fn jumping_auto_lands_on_the_floor() {
    let mut machine = RedHatBoyStateMachine::Running(context(0, STARTING_POINT, FLOOR, 4, 0))
        .transition(Event::Jump);
    for _ in 0..60 {
        machine = machine.transition(Event::Update);
    }
    assert!(matches!(machine, RedHatBoyStateMachine::Running(_)));
    assert_eq!(machine.context().position.y, FLOOR);
}

#[test]
fn frame_names_follow_state_and_animation_frame() {
    let sheet = full_sheet();
    let boy = RedHatBoy {
        state_machine: RedHatBoyStateMachine::Idle(context(0, STARTING_POINT, FLOOR, 0, 0)),
        sprite_sheet: sheet,
    };
    assert_eq!(boy.frame_name(), "Idle (1).png");

    let running = RedHatBoy {
        state_machine: RedHatBoyStateMachine::Running(context(9, STARTING_POINT, FLOOR, 4, 0)),
        sprite_sheet: full_sheet(),
    };
    assert_eq!(running.frame_name(), "Run (4).png");
    assert!(running.current_sprite().is_some());
}

#[test]
fn bounding_box_is_destination_box_shrunk_by_insets() {
    let boy = RedHatBoy {
        state_machine: RedHatBoyStateMachine::Running(context(0, STARTING_POINT, FLOOR, 4, 0)),
        sprite_sheet: full_sheet(),
    };
    let destination = boy.destination_box();
    assert_eq!(destination.x(), STARTING_POINT + 10);
    assert_eq!(destination.y(), FLOOR + 5);
    assert_eq!(destination.width, 100);
    assert_eq!(destination.height, 120);

    let hit = boy.bounding_box();
    assert_eq!(hit.x(), destination.x() + 18);
    assert_eq!(hit.y(), destination.y() + 14);
    assert_eq!(hit.width, destination.width - 28);
    assert_eq!(hit.height, destination.height - 14);
}
