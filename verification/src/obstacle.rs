use vstd::prelude::*;

use crate::image::Image;
use crate::platform::{spec_first_hit, Platform};
use crate::point::Point;
use crate::rect::Rect;
use crate::redhatboy::RedHatBoy;
use crate::redhatboy_state::{Event, MAX_LAND_POSITION};
use crate::renderer::DrawCommand;

verus! {

/// A static solid obstacle: a single image with a single bounding box.
/// Deliberately solid: any intersection with the character knocks out, so
/// a stone must be jumped, never walked through.
#[derive(Clone, Copy, PartialEq, Eq, Structural, Debug)]
pub struct Barrier {
    pub image: Image,
}

impl Barrier {
    pub fn new(image: Image) -> (r: Barrier)
        ensures
            r == (Barrier { image }),
    {
        Barrier { image }
    }
}

/// The collision event an obstacle delivers to the character, if any.
/// A barrier knocks out on any intersection. A platform acts on the first
/// of its boxes that the character's hit box intersects: a character that
/// is descending from above the platform's anchor lands on that box, any
/// other intersection knocks out.
pub open spec fn spec_collision_event(o: Obstacle, boy: RedHatBoy) -> Option<Event> {
    match o {
        Obstacle::Barrier(b) => {
            if boy.spec_bounding_box().spec_intersects(b.image.bounding_box) {
                Some(Event::KnockOut)
            } else {
                None
            }
        },
        Obstacle::Platform(p) => {
            match spec_first_hit(p.bounding_boxes@, boy.spec_bounding_box()) {
                Some(hit) => {
                    if boy.state_machine.spec_context().velocity.y > 0
                        && boy.state_machine.spec_context().position.y < p.position.y {
                        Some(Event::Land(hit.position.y))
                    } else {
                        Some(Event::KnockOut)
                    }
                },
                None => None,
            }
        },
    }
}

/// The character after one obstacle's collision check.
pub open spec fn spec_checked(o: Obstacle, boy: RedHatBoy) -> RedHatBoy {
    match spec_collision_event(o, boy) {
        Some(event) => RedHatBoy {
            state_machine: boy.state_machine.spec_transition(event),
            sprite_sheet: boy.sprite_sheet,
        },
        None => boy,
    }
}

/// An obstacle of the course: one of exactly two kinds.
#[derive(Clone, Debug)]
pub enum Obstacle {
    Barrier(Barrier),
    Platform(Platform),
}

impl Obstacle {
    pub open spec fn wf(self) -> bool {
        match self {
            Obstacle::Barrier(b) => b.image.wf(),
            Obstacle::Platform(p) => p.wf(),
        }
    }

    /// The rightmost edge: of the single box for a barrier, of the last box
    /// for a platform.
    pub open spec fn spec_right(self) -> int {
        match self {
            Obstacle::Barrier(b) => b.image.bounding_box.spec_right(),
            Obstacle::Platform(p) => p.spec_right(),
        }
    }

    pub fn right(&self) -> (r: i16)
        requires
            self.wf(),
        ensures
            r == self.spec_right(),
    {
        match self {
            Obstacle::Barrier(b) => b.image.right(),
            Obstacle::Platform(p) => p.right(),
        }
    }

    /// `moved` is this obstacle shifted horizontally by `x`.
    pub open spec fn spec_moved_to(self, moved: Obstacle, x: i16) -> bool {
        match (self, moved) {
            (Obstacle::Barrier(b), Obstacle::Barrier(m)) => m.image == (Image {
                image: b.image.image,
                position: Point {
                    x: (b.image.position.x + x) as i16,
                    y: b.image.position.y,
                },
                bounding_box: Rect {
                    position: Point {
                        x: (b.image.position.x + x) as i16,
                        y: b.image.bounding_box.position.y,
                    },
                    width: b.image.bounding_box.width,
                    height: b.image.bounding_box.height,
                },
            }),
            (Obstacle::Platform(p), Obstacle::Platform(m)) => {
                &&& m.position == (Point { x: (p.position.x + x) as i16, y: p.position.y })
                &&& m.sprites == p.sprites
                &&& m.bounding_boxes@.len() == p.bounding_boxes@.len()
                &&& forall|i: int|
                    0 <= i < p.bounding_boxes@.len() ==> #[trigger] m.bounding_boxes@[i] == (Rect {
                        position: Point {
                            x: (p.bounding_boxes@[i].position.x + x) as i16,
                            y: p.bounding_boxes@[i].position.y,
                        },
                        width: p.bounding_boxes@[i].width,
                        height: p.bounding_boxes@[i].height,
                    })
            },
            _ => false,
        }
    }

    /// The coordinates `move_horizontally` shifts all stay within `i16`.
    pub open spec fn spec_can_move(self, x: i16) -> bool {
        match self {
            Obstacle::Barrier(b) => i16::MIN <= b.image.position.x + x <= i16::MAX,
            Obstacle::Platform(p) => {
                &&& i16::MIN <= p.position.x + x <= i16::MAX
                &&& forall|i: int|
                    0 <= i < p.bounding_boxes@.len() ==> i16::MIN <= (
                    #[trigger] p.bounding_boxes@[i]).position.x + x <= i16::MAX
            },
        }
    }

    /// Shifts the obstacle's anchor and every bounding box by `x`.
    pub fn move_horizontally(&mut self, x: i16)
        requires
            old(self).spec_can_move(x),
        ensures
            old(self).spec_moved_to(*final(self), x),
    {
        match self {
            Obstacle::Barrier(b) => {
                b.image.move_horizontally(x);
            },
            Obstacle::Platform(p) => {
                p.move_horizontally(x);
            },
        }
    }

    /// Collision check against the character, after this obstacle has been
    /// moved for scroll.
    pub fn check_intersection(&self, boy: &mut RedHatBoy)
        requires
            self.wf(),
            old(boy).state_machine.inv(),
            old(boy).has_usable_sprite(),
        ensures
            *final(boy) == spec_checked(*self, *old(boy)),
            final(boy).state_machine.inv(),
            final(boy).sprite_sheet == old(boy).sprite_sheet,
    {
        match self {
            Obstacle::Barrier(b) => {
                let probe = boy.bounding_box();
                if probe.intersects(&b.image.bounding_box) {
                    boy.knock_out();
                }
            },
            Obstacle::Platform(p) => {
                p.check_intersection(boy);
            },
        }
    }

    /// The obstacle's rendering.
    pub open spec fn spec_draw(self) -> Seq<DrawCommand> {
        match self {
            Obstacle::Barrier(b) => b.image.spec_draw(),
            Obstacle::Platform(p) => p.spec_draw(),
        }
    }

    /// The draw pass never overflows: platforms far enough left of the
    /// largest representable coordinate.
    pub open spec fn spec_draw_safe(self) -> bool {
        match self {
            Obstacle::Barrier(_) => true,
            Obstacle::Platform(p) => p.position.x + 8 * crate::sheet::MAX_SPRITE_DIM <= i16::MAX,
        }
    }

    pub fn draw(&self) -> (r: Vec<DrawCommand>)
        requires
            self.wf(),
            self.spec_draw_safe(),
        ensures
            r@ == self.spec_draw(),
    {
        match self {
            Obstacle::Barrier(b) => b.image.draw(),
            Obstacle::Platform(p) => p.draw(),
        }
    }
}

} // verus!
