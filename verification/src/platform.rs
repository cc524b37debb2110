use vstd::prelude::*;

use crate::point::Point;
use crate::rect::Rect;
use crate::redhatboy::RedHatBoy;
use crate::redhatboy_state::{Event, MAX_LAND_POSITION, PLAYER_HEIGHT, RedHatBoyStateMachine};
use crate::renderer::{DrawCommand, ImageId};
use crate::sheet::{Cell, Sheet};

verus! {

/// The sprites the given names resolve to in the sheet, in order; names the
/// sheet does not know are skipped.
pub open spec fn spec_resolved(sheet: Sheet, names: Seq<String>) -> Seq<Cell>
    decreases names.len(),
{
    if names.len() == 0 {
        Seq::empty()
    } else {
        let rest = spec_resolved(sheet, names.drop_first());
        match sheet.spec_cell(names[0]@) {
            Some(c) => seq![c] + rest,
            None => rest,
        }
    }
}

proof fn lemma_resolved_push(sheet: Sheet, names: Seq<String>, name: String)
    ensures
        spec_resolved(sheet, names.push(name)) == spec_resolved(sheet, names) + match sheet
            .spec_cell(name@) {
            Some(c) => seq![c],
            None => Seq::<Cell>::empty(),
        },
    decreases names.len(),
{
    if names.len() == 0 {
        let singleton = names.push(name);
        assert(singleton[0] == name);
        assert(singleton.drop_first() =~= Seq::<String>::empty());
        assert(spec_resolved(sheet, singleton.drop_first()) == Seq::<Cell>::empty());
        assert(spec_resolved(sheet, names) == Seq::<Cell>::empty());
        match sheet.spec_cell(name@) {
            Some(c) => {
                assert(spec_resolved(sheet, singleton) == seq![c] + Seq::<Cell>::empty());
                assert(spec_resolved(sheet, singleton) =~= spec_resolved(sheet, names) + seq![c]);
            },
            None => {
                assert(spec_resolved(sheet, singleton) =~= spec_resolved(sheet, names));
            },
        }
    } else {
        assert(names.push(name).drop_first() =~= names.drop_first().push(name));
        lemma_resolved_push(sheet, names.drop_first(), name);
        match sheet.spec_cell(names[0]@) {
            Some(c) => {
                assert(spec_resolved(sheet, names.push(name)) =~= spec_resolved(sheet, names)
                    + match sheet.spec_cell(name@) {
                    Some(c2) => seq![c2],
                    None => Seq::<Cell>::empty(),
                });
            },
            None => {
            },
        }
    }
}

/// The first of the boxes that the probed box intersects, if any.
pub open spec fn spec_first_hit(boxes: Seq<Rect>, probe: Rect) -> Option<Rect>
    decreases boxes.len(),
{
    if boxes.len() == 0 {
        None
    } else if probe.spec_intersects(boxes[0]) {
        Some(boxes[0])
    } else {
        spec_first_hit(boxes.drop_first(), probe)
    }
}

/// If the probe misses every box before position `i`, the first hit is
/// decided by the boxes from `i` on.
proof fn lemma_first_hit_skip(boxes: Seq<Rect>, probe: Rect, i: int)
    requires
        0 <= i <= boxes.len(),
        forall|j: int| 0 <= j < i ==> !probe.spec_intersects(#[trigger] boxes[j]),
    ensures
        spec_first_hit(boxes, probe) == spec_first_hit(boxes.skip(i), probe),
    decreases i,
{
    if i > 0 {
        lemma_first_hit_skip(boxes.drop_first(), probe, i - 1);
        assert(boxes.drop_first().skip(i - 1) =~= boxes.skip(i));
    } else {
        assert(boxes.skip(0) =~= boxes);
    }
}

/// Total width of the first `i` sprites.
pub open spec fn spec_prefix_width(sprites: Seq<Cell>, i: int) -> int
    decreases i,
{
    if i <= 0 {
        0
    } else {
        spec_prefix_width(sprites, i - 1) + sprites[i - 1].frame.w
    }
}

/// A multi-segment platform: a position, the sprites drawn left to right,
/// and the translated bounding boxes that are its sole collision surface.
#[derive(Clone, Debug)]
pub struct Platform {
    pub position: Point,
    pub sprites: Vec<Cell>,
    pub bounding_boxes: Vec<Rect>,
}

impl Platform {
    /// Boxes are well formed and at on-screen heights (so landing on them
    /// stays within the world's coordinate band); sprites are well formed
    /// and few enough that their total width fits in `i16`.
    pub open spec fn wf(self) -> bool {
        &&& forall|i: int|
            0 <= i < self.bounding_boxes@.len() ==> (#[trigger] self.bounding_boxes@[i]).wf()
        &&& forall|i: int|
            0 <= i < self.bounding_boxes@.len() ==> 0 <= (
            #[trigger] self.bounding_boxes@[i]).position.y <= MAX_LAND_POSITION
        &&& forall|i: int| 0 <= i < self.sprites@.len() ==> (#[trigger] self.sprites@[i]).wf()
        &&& self.sprites@.len() <= 8
    }

    /// Builds a platform at `position`: the named sprites are resolved in
    /// the sheet (missing names are skipped), and every given bounding box
    /// is translated by `position`.
    pub fn new(
        sheet: &Sheet,
        position: Point,
        sprite_names: &[String],
        bounding_boxes: &[Rect],
    ) -> (r: Platform)
        requires
            forall|i: int|
                0 <= i < bounding_boxes@.len() ==> i16::MIN <= (
                #[trigger] bounding_boxes@[i]).position.x + position.x <= i16::MAX,
            forall|i: int|
                0 <= i < bounding_boxes@.len() ==> i16::MIN <= (
                #[trigger] bounding_boxes@[i]).position.y + position.y <= i16::MAX,
        ensures
            r.position == position,
            r.sprites@ == spec_resolved(*sheet, sprite_names@),
            r.bounding_boxes@.len() == bounding_boxes@.len(),
            forall|i: int|
                0 <= i < bounding_boxes@.len() ==> #[trigger] r.bounding_boxes@[i] == (Rect {
                    position: Point {
                        x: (bounding_boxes@[i].position.x + position.x) as i16,
                        y: (bounding_boxes@[i].position.y + position.y) as i16,
                    },
                    width: bounding_boxes@[i].width,
                    height: bounding_boxes@[i].height,
                }),
    {
        let mut sprites: Vec<Cell> = Vec::new();
        let mut idx: usize = 0;
        while idx < sprite_names.len()
            invariant
                0 <= idx <= sprite_names@.len(),
                sprites@ == spec_resolved(*sheet, sprite_names@.take(idx as int)),
            decreases sprite_names@.len() - idx,
        {
            proof {
                lemma_resolved_push(
                    *sheet,
                    sprite_names@.take(idx as int),
                    sprite_names@[idx as int],
                );
                assert(sprite_names@.take(idx as int).push(sprite_names@[idx as int])
                    =~= sprite_names@.take(idx as int + 1));
            }
            match sheet.cell(&sprite_names[idx]) {
                Some(cell) => {
                    sprites.push(*cell);
                    proof {
                        assert(sprites@ =~= spec_resolved(
                            *sheet,
                            sprite_names@.take(idx as int + 1),
                        ));
                    }
                },
                None => {
                },
            }
            idx = idx + 1;
        }
        proof {
            assert(sprite_names@.take(sprite_names@.len() as int) =~= sprite_names@);
        }

        let mut translated: Vec<Rect> = Vec::new();
        let mut bidx: usize = 0;
        while bidx < bounding_boxes.len()
            invariant
                0 <= bidx <= bounding_boxes@.len(),
                translated@.len() == bidx,
                forall|i: int|
                    0 <= i < bidx ==> #[trigger] translated@[i] == (Rect {
                        position: Point {
                            x: (bounding_boxes@[i].position.x + position.x) as i16,
                            y: (bounding_boxes@[i].position.y + position.y) as i16,
                        },
                        width: bounding_boxes@[i].width,
                        height: bounding_boxes@[i].height,
                    }),
                forall|i: int|
                    0 <= i < bounding_boxes@.len() ==> i16::MIN <= (
                    #[trigger] bounding_boxes@[i]).position.x + position.x <= i16::MAX,
                forall|i: int|
                    0 <= i < bounding_boxes@.len() ==> i16::MIN <= (
                    #[trigger] bounding_boxes@[i]).position.y + position.y <= i16::MAX,
            decreases bounding_boxes@.len() - bidx,
        {
            let b = &bounding_boxes[bidx];
            translated.push(
                Rect::new_from_x_y(b.x() + position.x, b.y() + position.y, b.width, b.height),
            );
            bidx = bidx + 1;
        }

        Platform { position, sprites, bounding_boxes: translated }
    }

    pub fn bounding_boxes(&self) -> (r: &Vec<Rect>)
        ensures
            *r == self.bounding_boxes,
    {
        &self.bounding_boxes
    }

    /// Scans the boxes in order; on the first box the character's hit box
    /// intersects, the character either lands on that box (descending from
    /// above the platform's anchor) or is knocked out. Only the first
    /// intersecting box is considered.
    pub fn check_intersection(&self, boy: &mut RedHatBoy)
        requires
            self.wf(),
            old(boy).state_machine.inv(),
            old(boy).has_usable_sprite(),
        ensures
            final(boy).sprite_sheet == old(boy).sprite_sheet,
            final(boy).state_machine.inv(),
            ({
                let hit = spec_first_hit(self.bounding_boxes@, old(boy).spec_bounding_box());
                match hit {
                    Some(b) => {
                        let event = if old(boy).state_machine.spec_context().velocity.y > 0 && old(
                            boy,
                        ).state_machine.spec_context().position.y < self.position.y {
                            Event::Land(b.position.y)
                        } else {
                            Event::KnockOut
                        };
                        final(boy).state_machine == old(boy).state_machine.spec_transition(event)
                    },
                    None => *final(boy) == *old(boy),
                }
            }),
    {
        let probe = boy.bounding_box();
        let mut idx: usize = 0;
        while idx < self.bounding_boxes.len()
            invariant
                0 <= idx <= self.bounding_boxes@.len(),
                forall|j: int|
                    0 <= j < idx ==> !probe.spec_intersects(#[trigger] self.bounding_boxes@[j]),
                self.wf(),
                probe == old(boy).spec_bounding_box(),
                probe.wf(),
                *boy == *old(boy),
                old(boy).state_machine.inv(),
                old(boy).has_usable_sprite(),
            decreases self.bounding_boxes@.len() - idx,
        {
            if probe.intersects(&self.bounding_boxes[idx]) {
                proof {
                    lemma_first_hit_skip(self.bounding_boxes@, probe, idx as int);
                }
                if boy.velocity_y() > 0 && boy.pos_y() < self.position.y {
                    let y = self.bounding_boxes[idx].y();
                    boy.land_on(y);
                } else {
                    boy.knock_out();
                }
                return ;
            }
            idx = idx + 1;
        }
        proof {
            lemma_first_hit_skip(self.bounding_boxes@, probe, idx as int);
        }
    }

    /// The platform's rendering: its sprites blitted left to right, each
    /// advancing the cursor by its own width, then the outline of each box.
    pub open spec fn spec_draw(self) -> Seq<DrawCommand> {
        Seq::new(
            self.sprites@.len(),
            |i: int|
                DrawCommand::Sprite {
                    image: ImageId::Tiles,
                    source: Rect {
                        position: Point { x: self.sprites@[i].frame.x, y: self.sprites@[i].frame.y },
                        width: self.sprites@[i].frame.w,
                        height: self.sprites@[i].frame.h,
                    },
                    destination: Rect {
                        position: Point {
                            x: (self.position.x + spec_prefix_width(self.sprites@, i)) as i16,
                            y: self.position.y,
                        },
                        width: self.sprites@[i].frame.w,
                        height: self.sprites@[i].frame.h,
                    },
                },
        ) + Seq::new(
            self.bounding_boxes@.len(),
            |j: int| DrawCommand::Outline { rect: self.bounding_boxes@[j] },
        )
    }

    pub fn draw(&self) -> (r: Vec<DrawCommand>)
        requires
            self.wf(),
            self.position.x + 8 * crate::sheet::MAX_SPRITE_DIM <= i16::MAX,
        ensures
            r@ == self.spec_draw(),
    {
        let mut r: Vec<DrawCommand> = Vec::new();
        let mut x: i16 = 0;
        let mut idx: usize = 0;
        while idx < self.sprites.len()
            invariant
                0 <= idx <= self.sprites@.len(),
                self.wf(),
                self.position.x + 8 * crate::sheet::MAX_SPRITE_DIM <= i16::MAX,
                x == spec_prefix_width(self.sprites@, idx as int),
                0 <= x <= idx * crate::sheet::MAX_SPRITE_DIM,
                r@.len() == idx,
                forall|i: int|
                    0 <= i < idx ==> #[trigger] r@[i] == self.spec_draw()[i],
            decreases self.sprites@.len() - idx,
        {
            let sprite = &self.sprites[idx];
            r.push(
                DrawCommand::Sprite {
                    image: ImageId::Tiles,
                    source: Rect::new_from_x_y(
                        sprite.frame.x,
                        sprite.frame.y,
                        sprite.frame.w,
                        sprite.frame.h,
                    ),
                    destination: Rect::new_from_x_y(
                        self.position.x + x,
                        self.position.y,
                        sprite.frame.w,
                        sprite.frame.h,
                    ),
                },
            );
            proof {
                assert(idx * crate::sheet::MAX_SPRITE_DIM + crate::sheet::MAX_SPRITE_DIM == (idx
                    + 1) * crate::sheet::MAX_SPRITE_DIM) by (nonlinear_arith);
            }
            x = x + sprite.frame.w;
            idx = idx + 1;
        }
        let mut bidx: usize = 0;
        while bidx < self.bounding_boxes.len()
            invariant
                0 <= bidx <= self.bounding_boxes@.len(),
                r@.len() == self.sprites@.len() + bidx,
                forall|i: int|
                    0 <= i < r@.len() ==> #[trigger] r@[i] == self.spec_draw()[i],
            decreases self.bounding_boxes@.len() - bidx,
        {
            r.push(DrawCommand::Outline { rect: self.bounding_boxes[bidx] });
            bidx = bidx + 1;
        }
        proof {
            assert(r@ =~= self.spec_draw());
        }
        r
    }

    /// Shifts the platform and every box by `x`.
    pub fn move_horizontally(&mut self, x: i16)
        requires
            i16::MIN <= old(self).position.x + x <= i16::MAX,
            forall|i: int|
                0 <= i < old(self).bounding_boxes@.len() ==> i16::MIN <= (
                #[trigger] old(self).bounding_boxes@[i]).position.x + x <= i16::MAX,
        ensures
            final(self).position == (Point {
                x: (old(self).position.x + x) as i16,
                y: old(self).position.y,
            }),
            final(self).sprites == old(self).sprites,
            final(self).bounding_boxes@.len() == old(self).bounding_boxes@.len(),
            forall|i: int|
                0 <= i < old(self).bounding_boxes@.len() ==> #[trigger] final(self)
                    .bounding_boxes@[i] == (Rect {
                    position: Point {
                        x: (old(self).bounding_boxes@[i].position.x + x) as i16,
                        y: old(self).bounding_boxes@[i].position.y,
                    },
                    width: old(self).bounding_boxes@[i].width,
                    height: old(self).bounding_boxes@[i].height,
                }),
    {
        self.position.x = self.position.x + x;
        let mut moved: Vec<Rect> = Vec::new();
        let mut idx: usize = 0;
        while idx < self.bounding_boxes.len()
            invariant
                0 <= idx <= self.bounding_boxes@.len(),
                self.bounding_boxes == old(self).bounding_boxes,
                forall|i: int|
                    0 <= i < self.bounding_boxes@.len() ==> i16::MIN <= (
                    #[trigger] self.bounding_boxes@[i]).position.x + x <= i16::MAX,
                moved@.len() == idx,
                forall|i: int|
                    0 <= i < idx ==> #[trigger] moved@[i] == (Rect {
                        position: Point {
                            x: (self.bounding_boxes@[i].position.x + x) as i16,
                            y: self.bounding_boxes@[i].position.y,
                        },
                        width: self.bounding_boxes@[i].width,
                        height: self.bounding_boxes@[i].height,
                    }),
            decreases self.bounding_boxes@.len() - idx,
        {
            let b = self.bounding_boxes[idx];
            moved.push(Rect::new_from_x_y(b.x() + x, b.y(), b.width, b.height));
            idx = idx + 1;
        }
        self.bounding_boxes = moved;
    }

    /// The right edge of the last box, or 0 for a platform without boxes.
    pub open spec fn spec_right(self) -> int {
        if self.bounding_boxes@.len() == 0 {
            0
        } else {
            self.bounding_boxes@.last().spec_right()
        }
    }

    pub fn right(&self) -> (r: i16)
        requires
            self.wf(),
        ensures
            r == self.spec_right(),
    {
        if self.bounding_boxes.len() == 0 {
            0
        } else {
            self.bounding_boxes[self.bounding_boxes.len() - 1].right()
        }
    }
}

/// The landing tie-break: a `Land` event on a descending character that is
/// running, sliding or jumping yields a running or sliding state re-anchored
/// to the landed box (`y == box.y - PLAYER_HEIGHT`), while a `KnockOut`
/// event on those states unconditionally yields `Falling`.
pub proof fn lemma_landing_tie_break(m: RedHatBoyStateMachine, b: Rect)
    requires
        m.inv(),
        m is Running || m is Sliding || m is Jumping,
        0 <= b.position.y <= MAX_LAND_POSITION,
    ensures
        ({
            let landed = m.spec_transition(Event::Land(b.position.y));
            &&& (landed is Running || landed is Sliding)
            &&& landed.spec_context().position.y == b.position.y - PLAYER_HEIGHT
        }),
        m.spec_transition(Event::KnockOut) is Falling,
{
}

} // verus!
