use vstd::prelude::*;

use crate::point::Point;
use crate::rect::Rect;
use crate::renderer::{DrawCommand, ImageId};
use crate::sheet::MAX_SPRITE_DIM;

verus! {

/// A positioned image: which image to draw, where, and the box it covers.
/// The decoded pixels live outside the core; only the geometry is kept here.
#[derive(Clone, Copy, PartialEq, Eq, Structural, Debug)]
pub struct Image {
    pub image: ImageId,
    pub position: Point,
    pub bounding_box: Rect,
}

impl Image {
    /// The box always sits at the image's position, and the image is no
    /// larger than a sprite may be.
    pub open spec fn wf(self) -> bool {
        &&& self.bounding_box.position == self.position
        &&& self.bounding_box.wf()
        &&& self.bounding_box.width <= MAX_SPRITE_DIM
        &&& self.bounding_box.height <= MAX_SPRITE_DIM
    }

    pub fn new(image: ImageId, position: Point, width: i16, height: i16) -> (r: Image)
        requires
            0 <= width <= MAX_SPRITE_DIM,
            0 <= height <= MAX_SPRITE_DIM,
            position.x + width <= i16::MAX,
            position.y + height <= i16::MAX,
        ensures
            r == (Image {
                image,
                position,
                bounding_box: Rect { position, width, height },
            }),
            r.wf(),
    {
        Image { image, position, bounding_box: Rect::new(position, width, height) }
    }

    /// The image blitted whole at its position, and the outline of its box.
    pub open spec fn spec_draw(self) -> Seq<DrawCommand> {
        seq![
            DrawCommand::Entire { image: self.image, position: self.position },
            DrawCommand::Outline { rect: self.bounding_box },
        ]
    }

    pub fn draw(&self) -> (r: Vec<DrawCommand>)
        ensures
            r@ == self.spec_draw(),
    {
        let r = vec![
            DrawCommand::Entire { image: self.image, position: self.position },
            DrawCommand::Outline { rect: self.bounding_box },
        ];
        proof {
            assert(r@ =~= self.spec_draw());
        }
        r
    }

    pub fn bounding_box(&self) -> (r: &Rect)
        ensures
            *r == self.bounding_box,
    {
        &self.bounding_box
    }

    pub fn move_horizontally(&mut self, distance: i16)
        requires
            i16::MIN <= old(self).position.x + distance <= i16::MAX,
        ensures
            *final(self) == (Image {
                image: old(self).image,
                position: Point {
                    x: (old(self).position.x + distance) as i16,
                    y: old(self).position.y,
                },
                bounding_box: Rect {
                    position: Point {
                        x: (old(self).position.x + distance) as i16,
                        y: old(self).bounding_box.position.y,
                    },
                    width: old(self).bounding_box.width,
                    height: old(self).bounding_box.height,
                },
            }),
    {
        let x = self.position.x + distance;
        self.set_x(x);
    }

    pub fn set_x(&mut self, x: i16)
        ensures
            *final(self) == (Image {
                image: old(self).image,
                position: Point { x, y: old(self).position.y },
                bounding_box: Rect {
                    position: Point { x, y: old(self).bounding_box.position.y },
                    width: old(self).bounding_box.width,
                    height: old(self).bounding_box.height,
                },
            }),
    {
        self.bounding_box.set_x(x);
        self.position.x = x;
    }

    pub fn right(&self) -> (r: i16)
        requires
            i16::MIN <= self.bounding_box.spec_right() <= i16::MAX,
        ensures
            r == self.bounding_box.spec_right(),
    {
        self.bounding_box.right()
    }
}

} // verus!
