use vstd::prelude::*;
use vstd::string::StrSliceExecFns;

use crate::image::Image;
use crate::obstacle::{Barrier, Obstacle};
use crate::platform::{spec_resolved, Platform};
use crate::point::Point;
use crate::rect::Rect;
use crate::renderer::ImageId;
use crate::sheet::{Cell, Sheet, MAX_SPRITE_DIM};

verus! {

/// Horizontal offset of the floating platform within a segment.
pub const FIRST_PLATFORM: i16 = 370;
/// Height of a low floating platform.
pub const LOW_PLATFORM: i16 = 420;
/// Height at which a stone rests on the ground.
pub const STONE_ON_GROUND: i16 = 546;
/// Largest offset at which a segment may be generated; keeps every
/// coordinate a segment produces within `i16`.
pub const MAX_SEGMENT_OFFSET: i16 = 1040;

/// The sprite the given name resolves to, as a sequence of zero or one cell.
pub open spec fn spec_resolved_one(sheet: Sheet, name: Seq<char>) -> Seq<Cell> {
    match sheet.spec_cell(name) {
        Some(c) => seq![c],
        None => Seq::empty(),
    }
}

/// A stone image resting on the ground at `x`.
pub open spec fn spec_stone_image(stone_w: i16, stone_h: i16, x: i16) -> Image {
    Image {
        image: ImageId::Stone,
        position: Point { x, y: STONE_ON_GROUND },
        bounding_box: Rect {
            position: Point { x, y: STONE_ON_GROUND },
            width: stone_w,
            height: stone_h,
        },
    }
}

/// The stone-and-platform pattern: a ground stone, then a three-cell
/// floating platform whose boxes are two short end caps around a taller
/// plateau.
pub open spec fn is_stone_and_platform(
    seg: Seq<Obstacle>,
    sheet: Sheet,
    stone_w: i16,
    stone_h: i16,
    offset_x: i16,
) -> bool {
    &&& seg.len() == 2
    &&& (seg[0] matches Obstacle::Barrier(b) && b.image == spec_stone_image(
        stone_w,
        stone_h,
        (offset_x + 150) as i16,
    ))
    &&& (seg[1] matches Obstacle::Platform(p) && {
        let px = (offset_x + FIRST_PLATFORM) as i16;
        &&& p.position == (Point { x: px, y: LOW_PLATFORM })
        &&& p.sprites@ == spec_resolved_one(sheet, "13.png"@) + spec_resolved_one(
            sheet,
            "14.png"@,
        ) + spec_resolved_one(sheet, "15.png"@)
        &&& p.bounding_boxes@ == seq![
            Rect { position: Point { x: px, y: LOW_PLATFORM }, width: 60, height: 54 },
            Rect {
                position: Point { x: (px + 60) as i16, y: LOW_PLATFORM },
                width: 264,
                height: 93,
            },
            Rect {
                position: Point { x: (px + 324) as i16, y: LOW_PLATFORM },
                width: 60,
                height: 54,
            },
        ]
    })
}

/// The platform-and-stone pattern: a single-cell platform with one
/// full-width box, and a ground stone further right.
pub open spec fn is_platform_and_stone(
    seg: Seq<Obstacle>,
    sheet: Sheet,
    stone_w: i16,
    stone_h: i16,
    offset_x: i16,
) -> bool {
    &&& seg.len() == 2
    &&& (seg[0] matches Obstacle::Barrier(b) && b.image == spec_stone_image(
        stone_w,
        stone_h,
        (offset_x + 450) as i16,
    ))
    &&& (seg[1] matches Obstacle::Platform(p) && {
        let px = (offset_x + FIRST_PLATFORM) as i16;
        &&& p.position == (Point { x: px, y: LOW_PLATFORM })
        &&& p.sprites@ == spec_resolved_one(sheet, "14.png"@)
        &&& p.bounding_boxes@ == seq![
            Rect { position: Point { x: px, y: LOW_PLATFORM }, width: 128, height: 93 },
        ]
    })
}

/// The fixed starting pattern: a single ground stone, placed at the usual
/// stone offset past `offset_x` so the player has a short warm-up.
pub open spec fn is_one_stone(
    seg: Seq<Obstacle>,
    stone_w: i16,
    stone_h: i16,
    offset_x: i16,
) -> bool {
    &&& seg.len() == 1
    &&& (seg[0] matches Obstacle::Barrier(b) && b.image == spec_stone_image(
        stone_w,
        stone_h,
        (offset_x + 150) as i16,
    ))
}

/// Builds the stone-and-platform pattern at `offset_x`.
pub fn stone_and_platform(sheet: &Sheet, stone_w: i16, stone_h: i16, offset_x: i16) -> (r: Vec<
    Obstacle,
>)
    requires
        sheet.wf(),
        0 <= offset_x <= MAX_SEGMENT_OFFSET,
        0 <= stone_w <= MAX_SPRITE_DIM,
        0 <= stone_h <= MAX_SPRITE_DIM,
    ensures
        is_stone_and_platform(r@, *sheet, stone_w, stone_h, offset_x),
        forall|i: int| 0 <= i < r@.len() ==> (#[trigger] r@[i]).wf(),
{
    let stone = Image::new(
        ImageId::Stone,
        Point { x: offset_x + 150, y: STONE_ON_GROUND },
        stone_w,
        stone_h,
    );

    let mut names: Vec<String> = Vec::new();
    names.push("13.png".to_owned());
    names.push("14.png".to_owned());
    names.push("15.png".to_owned());

    let mut boxes: Vec<Rect> = Vec::new();
    boxes.push(Rect::new_from_x_y(0, 0, 60, 54));
    boxes.push(Rect::new_from_x_y(60, 0, 384 - (60 * 2), 93));
    boxes.push(Rect::new_from_x_y(384 - 60, 0, 60, 54));

    let position = Point { x: offset_x + FIRST_PLATFORM, y: LOW_PLATFORM };
    let platform = Platform::new(sheet, position, names.as_slice(), boxes.as_slice());

    proof {
        lemma_resolved_three(*sheet, names@);
        lemma_resolved_one_wf(*sheet, "13.png"@);
        lemma_resolved_one_wf(*sheet, "14.png"@);
        lemma_resolved_one_wf(*sheet, "15.png"@);
        assert forall|i: int|
            0 <= i < platform.sprites@.len() implies (#[trigger] platform.sprites@[i]).wf() by {
            let a = spec_resolved_one(*sheet, "13.png"@);
            let b = spec_resolved_one(*sheet, "14.png"@);
            let c = spec_resolved_one(*sheet, "15.png"@);
            assert(platform.sprites@ == a + b + c);
            if i < a.len() {
                assert(platform.sprites@[i] == a[i]);
            } else if i < a.len() + b.len() {
                assert(platform.sprites@[i] == b[i - a.len()]);
            } else {
                assert(platform.sprites@[i] == c[i - a.len() - b.len()]);
            }
        }
        assert(platform.bounding_boxes@ =~= seq![
            Rect { position: Point { x: position.x, y: LOW_PLATFORM }, width: 60, height: 54 },
            Rect {
                position: Point { x: (position.x + 60) as i16, y: LOW_PLATFORM },
                width: 264,
                height: 93,
            },
            Rect {
                position: Point { x: (position.x + 324) as i16, y: LOW_PLATFORM },
                width: 60,
                height: 54,
            },
        ]);
    }

    let mut r: Vec<Obstacle> = Vec::new();
    r.push(Obstacle::Barrier(Barrier::new(stone)));
    r.push(Obstacle::Platform(platform));
    r
}

/// Builds the platform-and-stone pattern at `offset_x`.
pub fn platform_and_stone(sheet: &Sheet, stone_w: i16, stone_h: i16, offset_x: i16) -> (r: Vec<
    Obstacle,
>)
    requires
        sheet.wf(),
        0 <= offset_x <= MAX_SEGMENT_OFFSET,
        0 <= stone_w <= MAX_SPRITE_DIM,
        0 <= stone_h <= MAX_SPRITE_DIM,
    ensures
        is_platform_and_stone(r@, *sheet, stone_w, stone_h, offset_x),
        forall|i: int| 0 <= i < r@.len() ==> (#[trigger] r@[i]).wf(),
{
    let stone = Image::new(
        ImageId::Stone,
        Point { x: offset_x + 450, y: STONE_ON_GROUND },
        stone_w,
        stone_h,
    );

    let mut names: Vec<String> = Vec::new();
    names.push("14.png".to_owned());

    let mut boxes: Vec<Rect> = Vec::new();
    boxes.push(Rect::new_from_x_y(0, 0, 128, 93));

    let position = Point { x: offset_x + FIRST_PLATFORM, y: LOW_PLATFORM };
    let platform = Platform::new(sheet, position, names.as_slice(), boxes.as_slice());

    proof {
        lemma_resolved_single(*sheet, names@);
        lemma_resolved_one_wf(*sheet, "14.png"@);
        assert(platform.sprites@ == spec_resolved_one(*sheet, "14.png"@));
        assert(platform.bounding_boxes@ =~= seq![
            Rect { position: Point { x: position.x, y: LOW_PLATFORM }, width: 128, height: 93 },
        ]);
    }

    let mut r: Vec<Obstacle> = Vec::new();
    r.push(Obstacle::Barrier(Barrier::new(stone)));
    r.push(Obstacle::Platform(platform));
    r
}

/// Builds the fixed starting pattern at `offset_x`.
pub fn one_stone(stone_w: i16, stone_h: i16, offset_x: i16) -> (r: Vec<Obstacle>)
    requires
        0 <= offset_x <= MAX_SEGMENT_OFFSET,
        0 <= stone_w <= MAX_SPRITE_DIM,
        0 <= stone_h <= MAX_SPRITE_DIM,
    ensures
        is_one_stone(r@, stone_w, stone_h, offset_x),
        forall|i: int| 0 <= i < r@.len() ==> (#[trigger] r@[i]).wf(),
{
    let stone = Image::new(
        ImageId::Stone,
        Point { x: offset_x + 150, y: STONE_ON_GROUND },
        stone_w,
        stone_h,
    );
    let mut r: Vec<Obstacle> = Vec::new();
    r.push(Obstacle::Barrier(Barrier::new(stone)));
    r
}

/// In a well-formed sheet, every cell a name resolves to is well formed.
proof fn lemma_resolved_one_wf(sheet: Sheet, name: Seq<char>)
    requires
        sheet.wf(),
    ensures
        forall|i: int|
            0 <= i < spec_resolved_one(sheet, name).len() ==> (#[trigger] spec_resolved_one(
                sheet,
                name,
            )[i]).wf(),
{
    if sheet.spec_cell(name) is Some {
        crate::sheet::lemma_lookup_wf(sheet.frames@, name);
    }
}

/// Resolving a single name yields that name's cell sequence.
proof fn lemma_resolved_single(sheet: Sheet, names: Seq<String>)
    requires
        names.len() == 1,
    ensures
        spec_resolved(sheet, names) == spec_resolved_one(sheet, names[0]@),
{
    assert(names.drop_first() =~= Seq::<String>::empty());
    assert(spec_resolved(sheet, names.drop_first()) == Seq::<Cell>::empty());
    match sheet.spec_cell(names[0]@) {
        Some(c) => {
            assert(spec_resolved(sheet, names) =~= spec_resolved_one(sheet, names[0]@));
        },
        None => {
            assert(spec_resolved(sheet, names) =~= spec_resolved_one(sheet, names[0]@));
        },
    }
}

/// Resolving three names yields the concatenation of each name's cell
/// sequence.
proof fn lemma_resolved_three(sheet: Sheet, names: Seq<String>)
    requires
        names.len() == 3,
    ensures
        spec_resolved(sheet, names) == spec_resolved_one(sheet, names[0]@) + spec_resolved_one(
            sheet,
            names[1]@,
        ) + spec_resolved_one(sheet, names[2]@),
{
    let tail = names.drop_first();
    let tail2 = tail.drop_first();
    assert(tail.len() == 2 && tail2.len() == 1);
    assert(tail[0] == names[1] && tail2[0] == names[2]);
    lemma_resolved_single(sheet, tail2);
    assert(spec_resolved(sheet, tail) == spec_resolved_one(sheet, names[1]@) + spec_resolved_one(
        sheet,
        names[2]@,
    )) by {
        match sheet.spec_cell(tail[0]@) {
            Some(c) => {
                assert(spec_resolved(sheet, tail) =~= spec_resolved_one(sheet, names[1]@)
                    + spec_resolved_one(sheet, names[2]@));
            },
            None => {
                assert(spec_resolved(sheet, tail) =~= spec_resolved_one(sheet, names[1]@)
                    + spec_resolved_one(sheet, names[2]@));
            },
        }
    }
    match sheet.spec_cell(names[0]@) {
        Some(c) => {
            assert(spec_resolved(sheet, names) =~= spec_resolved_one(sheet, names[0]@)
                + spec_resolved_one(sheet, names[1]@) + spec_resolved_one(sheet, names[2]@));
        },
        None => {
            assert(spec_resolved(sheet, names) =~= spec_resolved_one(sheet, names[0]@)
                + spec_resolved_one(sheet, names[1]@) + spec_resolved_one(sheet, names[2]@));
        },
    }
}

} // verus!
