use walk_the_dog::image::Image;
use walk_the_dog::platform::Platform;
use walk_the_dog::rect::Rect;
use walk_the_dog::segment::{platform_and_stone, stone_and_platform};
use walk_the_dog::obstacle::{Barrier, Obstacle};
use walk_the_dog::point::Point;
use walk_the_dog::redhatboy::RedHatBoy;
use walk_the_dog::redhatboy_state::{RedHatBoyContext, RedHatBoyStateMachine, FLOOR, STARTING_POINT};
use walk_the_dog::renderer::{DrawCommand, ImageId};
use walk_the_dog::sheet::{Cell, Sheet, SheetEntry, SheetRect};
use walk_the_dog::walk::{rightmost, Walk};

fn full_sheet() -> Sheet {
    let mut entries: Vec<SheetEntry> = Vec::new();
    let states: [(&str, u8); 5] =
        [("Idle", 29), ("Run", 23), ("Slide", 14), ("Jump", 35), ("Dead", 29)];
    for (tag, frames) in states {
        for frame in 0..=frames {
            let name = format!("{} ({}).png", tag, frame / 3 + 1);
            entries.push(SheetEntry {
                name,
                cell: Cell {
                    frame: SheetRect { x: 0, y: 0, w: 100, h: 120 },
                    sprite_source_size: SheetRect { x: 10, y: 5, w: 100, h: 120 },
                },
            });
        }
    }
    Sheet::new(entries)
}

fn obstacle_sheet() -> Sheet {
    let mut entries: Vec<SheetEntry> = Vec::new();
    for name in ["13.png", "14.png", "15.png"] {
        entries.push(SheetEntry {
            name: name.to_owned(),
            cell: Cell {
                frame: SheetRect { x: 0, y: 0, w: 128, h: 93 },
                sprite_source_size: SheetRect { x: 0, y: 0, w: 128, h: 93 },
            },
        });
    }
    Sheet::new(entries)
}

fn running_walk(obstacles: Vec<Obstacle>, timeline: i16) -> Walk {
    let background0 = Image::new(ImageId::Background, Point { x: 0, y: 0 }, 600, 600);
    let background1 = Image::new(ImageId::Background, Point { x: 600, y: 0 }, 600, 600);
    Walk {
        boy: RedHatBoy {
            state_machine: RedHatBoyStateMachine::Running(RedHatBoyContext {
                frame: 0,
                position: Point { x: STARTING_POINT, y: FLOOR },
                velocity: Point { x: 4, y: 0 },
            }),
            sprite_sheet: full_sheet(),
        },
        backgrounds: [background0, background1],
        obstacles,
        obstacle_sheet: obstacle_sheet(),
        stone_width: 100,
        stone_height: 50,
        timeline,
    }
}

fn stone_at(x: i16) -> Obstacle {
    Obstacle::Barrier(Barrier::new(Image::new(ImageId::Stone, Point { x, y: 546 }, 100, 50)))
}

#[test]
fn walk_new_builds_the_starting_world() {
    let walk = Walk::new(full_sheet(), obstacle_sheet(), 100, 50, 600, 600);
    let walk = walk.expect("a complete sheet must build a world");
    assert_eq!(walk.obstacles.len(), 1);
    assert_eq!(walk.obstacles[0].right(), 20 + 150 + 100);
    assert_eq!(walk.timeline, 20 + 150 + 100 + 200);
    assert!(matches!(walk.boy.state_machine, RedHatBoyStateMachine::Idle(_)));
    assert_eq!(walk.boy.state_machine.context().position.x, STARTING_POINT);
    assert_eq!(walk.boy.state_machine.context().position.y, FLOOR);
}

#[test]
fn walk_new_rejects_an_incomplete_sheet() {
    assert!(Walk::new(Sheet::new(Vec::new()), obstacle_sheet(), 100, 50, 600, 600).is_none());
}

#[test]
fn walk_new_rejects_an_oversized_image() {
    assert!(Walk::new(full_sheet(), obstacle_sheet(), 5000, 50, 600, 600).is_none());
}

#[test]
fn culled_obstacle_is_removed_and_survivors_scroll() {
    let off_screen = stone_at(-106);
    assert!(off_screen.right() <= 0);
    let live = stone_at(500);
    let walk = running_walk(vec![off_screen, live], 1500);
    let next = walk.update_walking(false, false);
    assert_eq!(next.obstacles.len(), 1);
    assert_eq!(next.obstacles[0].right(), 500 + 100 - 4);
}

#[test]
fn watermark_matches_generated_segment() {
    let mut walk = running_walk(Vec::new(), 900);
    walk.generate_next_segment_with(0);
    assert_eq!(walk.obstacles.len(), 2);
    // Stone at 920 + 150, platform box ending at 920 + 370 + 384.
    assert_eq!(walk.timeline, 920 + 370 + 384);
    assert_eq!(rightmost(&walk.obstacles), walk.timeline);

    let mut other = running_walk(Vec::new(), 900);
    other.generate_next_segment_with(1);
    assert_eq!(other.obstacles.len(), 2);
    // Stone at 920 + 450 with width 100 reaches past the 128-wide platform.
    assert_eq!(other.timeline, 920 + 450 + 100);
}

#[test]
fn watermark_decays_by_scroll_velocity_above_minimum() {
    let walk = running_walk(Vec::new(), 1500);
    let next = walk.update_walking(false, false);
    assert_eq!(next.timeline, 1500 - 4);
    assert_eq!(next.obstacles.len(), 0);
}

#[test]
fn tick_below_minimum_extends_the_course() {
    let walk = running_walk(Vec::new(), 900);
    let next = walk.update_walking(false, false);
    assert_eq!(next.obstacles.len(), 2);
    assert!(next.timeline > 900);
    assert!(next.timeline == 920 + 370 + 384 || next.timeline == 920 + 450 + 100);
}

#[test]
fn backgrounds_scroll_and_ping_pong() {
    let walk = running_walk(Vec::new(), 1500);
    let next = walk.update_walking(false, false);
    assert_eq!(next.backgrounds[0].position.x, -4);
    assert_eq!(next.backgrounds[1].position.x, 596);

    let mut nearly_off = running_walk(Vec::new(), 1500);
    nearly_off.backgrounds[0].set_x(-598);
    nearly_off.backgrounds[1].set_x(2);
    let wrapped = nearly_off.update_walking(false, false);
    // The first tile's right edge passed 0, so it moved behind the second.
    assert_eq!(wrapped.backgrounds[1].position.x, -2);
    assert_eq!(wrapped.backgrounds[0].position.x, -2 + 600);
}

#[test]
fn walk_draw_lists_backgrounds_boy_and_obstacles() {
    let walk = running_walk(vec![stone_at(500)], 1500);
    let commands = walk.draw();
    // Two per background, two for the boy, two for the barrier.
    assert_eq!(commands.len(), 8);
    assert!(matches!(
        commands[0],
        DrawCommand::Entire { image: ImageId::Background, position: Point { x: 0, y: 0 } }
    ));
    assert!(matches!(
        commands[4],
        DrawCommand::Sprite { image: ImageId::Boy, .. }
    ));
    assert!(matches!(
        commands[6],
        DrawCommand::Entire { image: ImageId::Stone, position: Point { x: 500, y: 546 } }
    ));
}

#[test]
fn platform_draw_advances_a_cursor_by_sprite_widths() {
    let platform = Platform {
        position: Point { x: 50, y: 400 },
        sprites: vec![
            Cell {
                frame: SheetRect { x: 0, y: 0, w: 60, h: 54 },
                sprite_source_size: SheetRect { x: 0, y: 0, w: 60, h: 54 },
            },
            Cell {
                frame: SheetRect { x: 60, y: 0, w: 264, h: 93 },
                sprite_source_size: SheetRect { x: 0, y: 0, w: 264, h: 93 },
            },
        ],
        bounding_boxes: vec![Rect { position: Point { x: 50, y: 400 }, width: 324, height: 93 }],
    };
    let commands = platform.draw();
    assert_eq!(commands.len(), 3);
    match commands[0] {
        DrawCommand::Sprite { image, source, destination } => {
            assert_eq!(image, ImageId::Tiles);
            assert_eq!(source.x(), 0);
            assert_eq!(destination.x(), 50);
            assert_eq!(destination.y(), 400);
            assert_eq!(destination.width, 60);
        },
        _ => panic!("expected a sprite command"),
    }
    match commands[1] {
        DrawCommand::Sprite { source, destination, .. } => {
            assert_eq!(source.x(), 60);
            assert_eq!(destination.x(), 50 + 60);
            assert_eq!(destination.width, 264);
        },
        _ => panic!("expected a sprite command"),
    }
    assert!(matches!(commands[2], DrawCommand::Outline { .. }));
}

#[test]
fn segment_patterns_place_their_obstacles() {
    let sheet = obstacle_sheet();
    let seg = stone_and_platform(&sheet, 100, 50, 0);
    assert_eq!(seg.len(), 2);
    match &seg[0] {
        Obstacle::Barrier(b) => {
            assert_eq!(b.image.position.x, 150);
            assert_eq!(b.image.position.y, 546);
        },
        _ => panic!("expected the stone first"),
    }
    match &seg[1] {
        Obstacle::Platform(p) => {
            assert_eq!(p.position.x, 370);
            assert_eq!(p.position.y, 420);
            assert_eq!(p.sprites.len(), 3);
            assert_eq!(p.bounding_boxes.len(), 3);
            assert_eq!(p.bounding_boxes[0].x(), 370);
            assert_eq!(p.bounding_boxes[0].width, 60);
            assert_eq!(p.bounding_boxes[1].x(), 430);
            assert_eq!(p.bounding_boxes[1].width, 264);
            assert_eq!(p.bounding_boxes[2].x(), 694);
            assert_eq!(p.bounding_boxes[2].width, 60);
            assert_eq!(p.right(), 754);
        },
        _ => panic!("expected the platform second"),
    }

    let seg = platform_and_stone(&sheet, 100, 50, 0);
    assert_eq!(seg.len(), 2);
    match &seg[0] {
        Obstacle::Barrier(b) => assert_eq!(b.image.position.x, 450),
        _ => panic!("expected the stone first"),
    }
    match &seg[1] {
        Obstacle::Platform(p) => {
            assert_eq!(p.sprites.len(), 1);
            assert_eq!(p.bounding_boxes.len(), 1);
            assert_eq!(p.bounding_boxes[0].width, 128);
            assert_eq!(p.right(), 498);
        },
        _ => panic!("expected the platform second"),
    }
}

#[test]
fn reset_rebuilds_character_and_starting_obstacles() {
    let walk = running_walk(vec![stone_at(500)], 1500);
    let fresh = Walk::reset(walk);
    assert!(matches!(fresh.boy.state_machine, RedHatBoyStateMachine::Idle(_)));
    assert_eq!(fresh.obstacles.len(), 1);
    assert_eq!(fresh.obstacles[0].right(), 270);
    assert_eq!(fresh.timeline, 470);
}
