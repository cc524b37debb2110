use vstd::prelude::*;

use crate::image::Image;
use crate::obstacle::{spec_checked, Obstacle};
use crate::point::Point;
use crate::rect::Rect;
use crate::redhatboy::{boy_sheet_complete, lemma_complete_sheet_usable, RedHatBoy};
use crate::redhatboy_state::{Event, RUNNING_SPEED};
use crate::renderer::{DrawCommand, ImageId};
use crate::segment::{
    is_one_stone, is_platform_and_stone, is_stone_and_platform, one_stone, platform_and_stone,
    stone_and_platform, MAX_SEGMENT_OFFSET,
};
use crate::sheet::{Sheet, MAX_SPRITE_DIM};

verus! {

/// When the generation watermark falls below this look-ahead the course is
/// extended.
pub const TIMELINE_MINIMUM: i16 = 1000;
/// Gap left between the watermark and a newly generated segment.
pub const OBSTACLE_BUFFER: i16 = 20;
/// Extra warm-up distance granted before the first obstacle.
pub const STARTING_TIMELINE_BUFFER: i16 = 200;
/// No obstacle's right edge ever lies beyond this coordinate.
pub const WORLD_RIGHT_LIMIT: i16 = 2600;
/// Everything an obstacle owns lies within this span of its right edge.
pub const OBSTACLE_SPAN: i16 = 4096;

/// Relies on rand::random_range: a uniformly distributed value in the given
/// range, here `0..2`. Which pattern extends the course is the one chancy
/// choice of the game; nothing more than the range can be promised.
#[verifier::external_body]
fn random_segment_choice() -> (r: u8)
    ensures
        r < 2,
{
    rand::random_range(0..2)
}

/// An obstacle as the world keeps it: well formed, already generated (its
/// right edge before the world limit), and compact (nothing it owns trails
/// further than `OBSTACLE_SPAN` behind its right edge).
pub open spec fn obstacle_in_band(o: Obstacle) -> bool {
    &&& o.wf()
    &&& o.spec_right() <= WORLD_RIGHT_LIMIT
    &&& match o {
        Obstacle::Barrier(_) => true,
        Obstacle::Platform(p) => {
            &&& p.position.x <= p.spec_right()
            &&& p.position.x >= p.spec_right() - OBSTACLE_SPAN
            &&& forall|i: int|
                0 <= i < p.bounding_boxes@.len() ==> (#[trigger] p.bounding_boxes@[i]).position.x
                    >= p.spec_right() - OBSTACLE_SPAN
        },
    }
}

/// The rightmost edge over a list of obstacles, or 0 for an empty list.
pub open spec fn spec_rightmost(s: Seq<Obstacle>) -> int
    decreases s.len(),
{
    if s.len() == 0 {
        0
    } else if s.len() == 1 {
        s.last().spec_right()
    } else {
        let rest = spec_rightmost(s.drop_last());
        if s.last().spec_right() > rest {
            s.last().spec_right()
        } else {
            rest
        }
    }
}

/// The rightmost edge bounds every element's edge, and for a non-empty list
/// is attained by one of them.
pub proof fn lemma_rightmost_bounds(s: Seq<Obstacle>)
    ensures
        forall|i: int| 0 <= i < s.len() ==> (#[trigger] s[i]).spec_right() <= spec_rightmost(s),
        s.len() > 0 ==> exists|i: int|
            0 <= i < s.len() && (#[trigger] s[i]).spec_right() == spec_rightmost(s),
    decreases s.len(),
{
    if s.len() > 1 {
        lemma_rightmost_bounds(s.drop_last());
        assert forall|i: int|
            0 <= i < s.len() implies (#[trigger] s[i]).spec_right() <= spec_rightmost(s) by {
            if i < s.len() - 1 {
                assert(s.drop_last()[i] == s[i]);
            }
        }
        if s.last().spec_right() > spec_rightmost(s.drop_last()) {
            assert(s[s.len() - 1].spec_right() == spec_rightmost(s));
        } else {
            let j = choose|j: int|
                0 <= j < s.drop_last().len() && (#[trigger] s.drop_last()[j]).spec_right()
                    == spec_rightmost(s.drop_last());
            assert(s[j].spec_right() == spec_rightmost(s));
        }
    }
}

/// The rightmost edge of a list of obstacles.
pub fn rightmost(obstacle_list: &Vec<Obstacle>) -> (r: i16)
    requires
        forall|i: int| 0 <= i < obstacle_list@.len() ==> (#[trigger] obstacle_list@[i]).wf(),
    ensures
        r == spec_rightmost(obstacle_list@),
{
    if obstacle_list.len() == 0 {
        return 0;
    }
    let mut acc: i16 = obstacle_list[0].right();
    let mut idx: usize = 1;
    proof {
        assert(obstacle_list@.take(1).last() == obstacle_list@[0]);
    }
    while idx < obstacle_list.len()
        invariant
            1 <= idx <= obstacle_list@.len(),
            forall|i: int| 0 <= i < obstacle_list@.len() ==> (#[trigger] obstacle_list@[i]).wf(),
            acc == spec_rightmost(obstacle_list@.take(idx as int)),
        decreases obstacle_list@.len() - idx,
    {
        let right = obstacle_list[idx].right();
        proof {
            assert(obstacle_list@.take(idx as int + 1).drop_last() =~= obstacle_list@.take(
                idx as int,
            ));
            assert(obstacle_list@.take(idx as int + 1).last() == obstacle_list@[idx as int]);
        }
        if right > acc {
            acc = right;
        }
        idx = idx + 1;
    }
    proof {
        assert(obstacle_list@.take(obstacle_list@.len() as int) =~= obstacle_list@);
    }
    acc
}

/// The obstacles that survive a culling pass: those whose right edge has
/// not yet scrolled past 0, in their original order.
pub open spec fn spec_retained(s: Seq<Obstacle>) -> Seq<Obstacle>
    decreases s.len(),
{
    if s.len() == 0 {
        Seq::empty()
    } else {
        spec_retained(s.drop_last()) + if s.last().spec_right() > 0 {
            seq![s.last()]
        } else {
            Seq::empty()
        }
    }
}

/// Every retained obstacle has a positive right edge, and inherits the band
/// invariant from the original list.
pub proof fn lemma_retained_props(s: Seq<Obstacle>)
    requires
        forall|i: int| 0 <= i < s.len() ==> obstacle_in_band(#[trigger] s[i]),
    ensures
        forall|i: int|
            0 <= i < spec_retained(s).len() ==> (#[trigger] spec_retained(s)[i]).spec_right() > 0,
        forall|i: int|
            0 <= i < spec_retained(s).len() ==> obstacle_in_band(#[trigger] spec_retained(s)[i]),
    decreases s.len(),
{
    if s.len() > 0 {
        assert(forall|i: int|
            0 <= i < s.drop_last().len() ==> obstacle_in_band(#[trigger] s.drop_last()[i]));
        lemma_retained_props(s.drop_last());
        assert(obstacle_in_band(s.last()));
        let prefix = spec_retained(s.drop_last());
        assert forall|i: int|
            0 <= i < spec_retained(s).len() implies ((#[trigger] spec_retained(s)[i]).spec_right()
            > 0 && obstacle_in_band(spec_retained(s)[i])) by {
            if i < prefix.len() {
                assert(spec_retained(s)[i] == prefix[i]);
            } else {
                assert(spec_retained(s)[i] == s.last());
            }
        }
    }
}

/// The character after collision checks against the obstacles, in order.
pub open spec fn spec_collide_seq(obstacles: Seq<Obstacle>, boy: RedHatBoy) -> RedHatBoy
    decreases obstacles.len(),
{
    if obstacles.len() == 0 {
        boy
    } else {
        spec_checked(obstacles.last(), spec_collide_seq(obstacles.drop_last(), boy))
    }
}

/// An image shifted horizontally.
pub open spec fn spec_image_at(b: Image, x: int) -> Image {
    Image {
        image: b.image,
        position: Point { x: x as i16, y: b.position.y },
        bounding_box: Rect {
            position: Point { x: x as i16, y: b.bounding_box.position.y },
            width: b.bounding_box.width,
            height: b.bounding_box.height,
        },
    }
}

/// One scroll step of the two tiling backgrounds: both shift by the scroll
/// velocity, and a tile whose right edge has passed 0 is repositioned
/// immediately to the right of the other.
pub open spec fn spec_bg_tick(b0: Image, b1: Image, v: int) -> (Image, Image) {
    let m0 = spec_image_at(b0, b0.position.x + v);
    let m1 = spec_image_at(b1, b1.position.x + v);
    let f0 = if m0.bounding_box.spec_right() < 0 {
        spec_image_at(m0, m1.bounding_box.spec_right())
    } else {
        m0
    };
    let f1 = if m1.bounding_box.spec_right() < 0 {
        spec_image_at(m1, f0.bounding_box.spec_right())
    } else {
        m1
    };
    (f0, f1)
}

/// The rendering of a list of obstacles, in list order.
pub open spec fn spec_draw_obstacles(s: Seq<Obstacle>) -> Seq<DrawCommand>
    decreases s.len(),
{
    if s.len() == 0 {
        Seq::empty()
    } else {
        spec_draw_obstacles(s.drop_last()) + s.last().spec_draw()
    }
}

/// The world: the character, two tiling backgrounds, the live obstacles,
/// the shared obstacle sprite sheet, the stone image's extent, and the
/// scrolling generation watermark.
#[derive(Clone, Debug)]
pub struct Walk {
    pub boy: RedHatBoy,
    pub backgrounds: [Image; 2],
    pub obstacles: Vec<Obstacle>,
    pub obstacle_sheet: Sheet,
    pub stone_width: i16,
    pub stone_height: i16,
    pub timeline: i16,
}

impl Walk {
    /// The two background tiles: equal widths, one exactly a tile-width
    /// right of the other, both within the scrolling band.
    pub open spec fn spec_bg_ok(self) -> bool {
        let b0 = self.backgrounds@[0];
        let b1 = self.backgrounds@[1];
        let w = b0.bounding_box.width;
        &&& b0.wf()
        &&& b1.wf()
        &&& w >= RUNNING_SPEED
        &&& b1.bounding_box.width == w
        &&& (b1.position.x == b0.position.x + w || b0.position.x == b1.position.x + w)
        &&& -(w + 2 * RUNNING_SPEED) <= b0.position.x <= 2 * MAX_SPRITE_DIM
        &&& -(w + 2 * RUNNING_SPEED) <= b1.position.x <= 2 * MAX_SPRITE_DIM
    }

    /// Invariant of every reachable world state.
    pub open spec fn wf(self) -> bool {
        &&& self.boy.state_machine.inv()
        &&& boy_sheet_complete(self.boy.sprite_sheet)
        &&& self.obstacle_sheet.wf()
        &&& 0 <= self.stone_width <= MAX_SPRITE_DIM
        &&& 0 <= self.stone_height <= MAX_SPRITE_DIM
        &&& 0 <= self.timeline <= WORLD_RIGHT_LIMIT
        &&& forall|i: int|
            0 <= i < self.obstacles@.len() ==> obstacle_in_band(#[trigger] self.obstacles@[i])
        &&& self.spec_bg_ok()
    }

    /// The scroll velocity: the negation of the character's forward speed
    /// (the character is visually stationary; the world scrolls left).
    pub fn velocity(&self) -> (r: i16)
        requires
            self.boy.state_machine.inv(),
        ensures
            r == -self.boy.state_machine.spec_context().velocity.x,
            -RUNNING_SPEED <= r <= 0,
    {
        -self.boy.walking_speed()
    }

    pub fn knocked_out(&self) -> (r: bool)
        ensures
            r == (self.boy.state_machine is KnockedOut),
    {
        self.boy.knocked_out()
    }

    /// The fixed starting obstacle set and its watermark: the starting
    /// pattern placed one buffer past `offset_x`, with a warm-up margin
    /// added to the watermark.
    pub fn starting_obstacles_and_timeline(
        stone_width: i16,
        stone_height: i16,
        offset_x: i16,
    ) -> (r: (Vec<Obstacle>, i16))
        requires
            0 <= offset_x <= 800,
            0 <= stone_width <= MAX_SPRITE_DIM,
            0 <= stone_height <= MAX_SPRITE_DIM,
        ensures
            is_one_stone(r.0@, stone_width, stone_height, (offset_x + OBSTACLE_BUFFER) as i16),
            r.1 == spec_rightmost(r.0@) + STARTING_TIMELINE_BUFFER,
            forall|i: int| 0 <= i < r.0@.len() ==> obstacle_in_band(#[trigger] r.0@[i]),
            0 <= r.1 <= WORLD_RIGHT_LIMIT,
    {
        let obstacles = one_stone(stone_width, stone_height, offset_x + OBSTACLE_BUFFER);
        proof {
            lemma_rightmost_bounds(obstacles@);
        }
        let timeline = rightmost(&obstacles) + STARTING_TIMELINE_BUFFER;
        (obstacles, timeline)
    }

    /// A fresh world from loaded assets. Returns `None` when the character
    /// sheet is missing a required animation cell, or an image extent is
    /// out of the supported range: a configuration error, surfaced before
    /// play begins.
    pub fn new(
        boy_sheet: Sheet,
        obstacle_sheet: Sheet,
        stone_width: i16,
        stone_height: i16,
        background_width: i16,
        background_height: i16,
    ) -> (r: Option<Walk>)
        requires
            obstacle_sheet.wf(),
        ensures
            r is Some <==> {
                &&& boy_sheet_complete(boy_sheet)
                &&& 0 <= stone_width <= MAX_SPRITE_DIM
                &&& 0 <= stone_height <= MAX_SPRITE_DIM
                &&& RUNNING_SPEED <= background_width <= MAX_SPRITE_DIM
                &&& 0 <= background_height <= MAX_SPRITE_DIM
            },
            r matches Some(w) ==> {
                &&& w.wf()
                &&& w.boy == RedHatBoy::new_spec(boy_sheet)
                &&& w.backgrounds@[0] == spec_image_at(
                    Image {
                        image: ImageId::Background,
                        position: Point { x: 0, y: 0 },
                        bounding_box: Rect {
                            position: Point { x: 0, y: 0 },
                            width: background_width,
                            height: background_height,
                        },
                    },
                    0,
                )
                &&& w.backgrounds@[1] == spec_image_at(w.backgrounds@[0], background_width as int)
                &&& w.obstacle_sheet == obstacle_sheet
                &&& w.stone_width == stone_width
                &&& w.stone_height == stone_height
                &&& is_one_stone(w.obstacles@, stone_width, stone_height, OBSTACLE_BUFFER)
                &&& w.timeline == spec_rightmost(w.obstacles@) + STARTING_TIMELINE_BUFFER
            },
    {
        if !(0 <= stone_width && stone_width <= MAX_SPRITE_DIM && 0 <= stone_height && stone_height
            <= MAX_SPRITE_DIM && RUNNING_SPEED <= background_width && background_width
            <= MAX_SPRITE_DIM && 0 <= background_height && background_height <= MAX_SPRITE_DIM) {
            return None;
        }
        if !crate::redhatboy::check_boy_sheet_complete(&boy_sheet) {
            return None;
        }
        let boy = RedHatBoy::new(boy_sheet);
        let background0 = Image::new(
            ImageId::Background,
            Point { x: 0, y: 0 },
            background_width,
            background_height,
        );
        let background1 = Image::new(
            ImageId::Background,
            Point { x: background_width, y: 0 },
            background_width,
            background_height,
        );
        let (obstacles, timeline) = Walk::starting_obstacles_and_timeline(
            stone_width,
            stone_height,
            0,
        );
        Some(
            Walk {
                boy,
                backgrounds: [background0, background1],
                obstacles,
                obstacle_sheet,
                stone_width,
                stone_height,
                timeline,
            },
        )
    }

    /// A fresh world for a new round: the character rebuilt at its starting
    /// state, the obstacle course regenerated from the starting rule, the
    /// backgrounds and loaded sheets reused unchanged.
    pub fn reset(walk: Walk) -> (r: Walk)
        requires
            walk.wf(),
        ensures
            r.wf(),
            is_reset(walk, r),
    {
        let (obstacles, timeline) = Walk::starting_obstacles_and_timeline(
            walk.stone_width,
            walk.stone_height,
            0,
        );
        Walk {
            boy: RedHatBoy::reset(walk.boy),
            backgrounds: walk.backgrounds,
            obstacles,
            obstacle_sheet: walk.obstacle_sheet,
            stone_width: walk.stone_width,
            stone_height: walk.stone_height,
            timeline,
        }
    }

    /// Extends the course with the chosen pattern, placed one buffer past
    /// the watermark, and advances the watermark to the new segment's
    /// rightmost edge — strictly forward.
    pub fn generate_next_segment_with(&mut self, choice: u8)
        requires
            old(self).wf(),
            old(self).timeline < TIMELINE_MINIMUM,
            choice < 2,
        ensures
            final(self).wf(),
            final(self).boy == old(self).boy,
            final(self).backgrounds == old(self).backgrounds,
            final(self).obstacle_sheet == old(self).obstacle_sheet,
            final(self).stone_width == old(self).stone_width,
            final(self).stone_height == old(self).stone_height,
            final(self).obstacles@.len() == old(self).obstacles@.len() + 2,
            final(self).obstacles@.take(old(self).obstacles@.len() as int) == old(
                self,
            ).obstacles@,
            ({
                let seg = final(self).obstacles@.skip(old(self).obstacles@.len() as int);
                let offset = (old(self).timeline + OBSTACLE_BUFFER) as i16;
                &&& (choice == 0 ==> is_stone_and_platform(
                    seg,
                    old(self).obstacle_sheet,
                    old(self).stone_width,
                    old(self).stone_height,
                    offset,
                ))
                &&& (choice == 1 ==> is_platform_and_stone(
                    seg,
                    old(self).obstacle_sheet,
                    old(self).stone_width,
                    old(self).stone_height,
                    offset,
                ))
                &&& final(self).timeline == spec_rightmost(seg)
            }),
            final(self).timeline > old(self).timeline,
    {
        let offset = self.timeline + OBSTACLE_BUFFER;
        let mut next_obstacles = if choice == 0 {
            stone_and_platform(&self.obstacle_sheet, self.stone_width, self.stone_height, offset)
        } else {
            platform_and_stone(&self.obstacle_sheet, self.stone_width, self.stone_height, offset)
        };
        let ghost seg = next_obstacles@;
        proof {
            lemma_rightmost_bounds(seg);
            lemma_segment_in_band(
                seg,
                self.obstacle_sheet,
                self.stone_width,
                self.stone_height,
                offset,
            );
        }
        self.timeline = rightmost(&next_obstacles);
        self.obstacles.append(&mut next_obstacles);
        proof {
            assert(self.obstacles@.take(old(self).obstacles@.len() as int) =~= old(
                self,
            ).obstacles@);
            assert(self.obstacles@.skip(old(self).obstacles@.len() as int) =~= seg);
            assert forall|i: int|
                0 <= i < self.obstacles@.len() implies obstacle_in_band(
                #[trigger] self.obstacles@[i],
            ) by {
                if i < old(self).obstacles@.len() {
                    assert(self.obstacles@[i] == old(self).obstacles@[i]);
                } else {
                    assert(self.obstacles@[i] == seg[i - old(self).obstacles@.len()]);
                }
            }
        }
    }

    /// The world's rendering: both background tiles, the character, then
    /// every obstacle, in list order.
    pub open spec fn spec_draw(self) -> Seq<DrawCommand> {
        self.backgrounds@[0].spec_draw() + self.backgrounds@[1].spec_draw()
            + self.boy.spec_draw() + spec_draw_obstacles(self.obstacles@)
    }

    pub fn draw(&self) -> (r: Vec<DrawCommand>)
        requires
            self.wf(),
        ensures
            r@ == self.spec_draw(),
    {
        proof {
            lemma_complete_sheet_usable(self.boy);
        }
        let mut r: Vec<DrawCommand> = Vec::new();
        let mut background_commands = self.backgrounds[0].draw();
        r.append(&mut background_commands);
        let mut second_commands = self.backgrounds[1].draw();
        r.append(&mut second_commands);
        let mut boy_commands = self.boy.draw();
        r.append(&mut boy_commands);
        let ghost prefix = r@;
        let mut idx: usize = 0;
        while idx < self.obstacles.len()
            invariant
                0 <= idx <= self.obstacles@.len(),
                self.wf(),
                prefix == self.backgrounds@[0].spec_draw() + self.backgrounds@[1].spec_draw()
                    + self.boy.spec_draw(),
                r@ == prefix + spec_draw_obstacles(self.obstacles@.take(idx as int)),
            decreases self.obstacles@.len() - idx,
        {
            proof {
                assert(obstacle_in_band(self.obstacles@[idx as int]));
            }
            let mut obstacle_commands = self.obstacles[idx].draw();
            r.append(&mut obstacle_commands);
            proof {
                assert(self.obstacles@.take(idx as int + 1).drop_last() =~= self.obstacles@.take(
                    idx as int,
                ));
                assert(self.obstacles@.take(idx as int + 1).last() == self.obstacles@[idx as int]);
            }
            idx = idx + 1;
        }
        proof {
            assert(self.obstacles@.take(self.obstacles@.len() as int) =~= self.obstacles@);
        }
        r
    }

    /// One full simulation tick of a running world: input applied to the
    /// character, one physics step, world scroll, background ping-pong
    /// tiling, off-screen obstacles culled, the rest moved and collision
    /// checked in order, and the course extended (or the watermark decayed)
    /// as the look-ahead demands.
    pub fn update_walking(self, pressed_space: bool, pressed_down: bool) -> (r: Walk)
        requires
            self.wf(),
        ensures
            r.wf(),
            is_walking_tick(self, r, pressed_space, pressed_down),
    {
        let mut boy = self.boy;
        let backgrounds = self.backgrounds;
        let mut obstacles = self.obstacles;
        let obstacle_sheet = self.obstacle_sheet;
        let stone_width = self.stone_width;
        let stone_height = self.stone_height;
        let timeline = self.timeline;

        if pressed_space {
            boy.jump();
        }
        if pressed_down {
            boy.slide();
        }
        boy.update();
        let velocity = -boy.walking_speed();

        let mut first = backgrounds[0];
        let mut second = backgrounds[1];
        first.move_horizontally(velocity);
        second.move_horizontally(velocity);
        if first.right() < 0 {
            first.set_x(second.right());
        }
        if second.right() < 0 {
            second.set_x(first.right());
        }
        proof {
            lemma_bg_tick_ok(backgrounds@[0], backgrounds@[1], velocity as int);
            assert(first == spec_bg_tick(backgrounds@[0], backgrounds@[1], velocity as int).0);
            assert(second == spec_bg_tick(backgrounds@[0], backgrounds@[1], velocity as int).1);
        }

        let ghost orig = obstacles@;
        proof {
            lemma_retained_props(orig);
            assert(orig.skip(0) =~= orig);
            assert(orig.take(0) =~= Seq::<Obstacle>::empty());
        }
        let mut kept: Vec<Obstacle> = Vec::new();
        while obstacles.len() > 0
            invariant
                obstacles@.len() <= orig.len(),
                obstacles@ == orig.skip(orig.len() - obstacles@.len()),
                kept@ == spec_retained(orig.take(orig.len() - obstacles@.len())),
                forall|i: int| 0 <= i < orig.len() ==> obstacle_in_band(#[trigger] orig[i]),
            decreases obstacles@.len(),
        {
            let ghost pre = obstacles@;
            let ghost k = orig.len() - pre.len();
            let o = obstacles.remove(0);
            proof {
                assert(pre == orig.skip(k));
                assert(orig.skip(k)[0] == orig[k]);
                assert(o == orig[k]);
                assert(obstacles@ =~= orig.skip(k + 1));
                assert(orig.take(k + 1).drop_last() =~= orig.take(k));
                assert(orig.take(k + 1).last() == orig[k]);
                assert(obstacle_in_band(o));
            }
            let ghost kept_pre = kept@;
            if o.right() > 0 {
                kept.push(o);
                proof {
                    assert(kept@ =~= kept_pre + seq![o]);
                }
            } else {
                proof {
                    assert(kept@ =~= kept_pre + Seq::<Obstacle>::empty());
                }
            }
            proof {
                assert(kept@ == spec_retained(orig.take(k + 1)));
            }
        }
        proof {
            assert(orig.take(orig.len() as int) =~= orig);
            assert(kept@ == spec_retained(orig));
        }

        let ghost kept_full = kept@;
        let ghost base_boy = boy;
        proof {
            assert(kept_full.skip(0) =~= kept_full);
        }
        let mut moved: Vec<Obstacle> = Vec::new();
        while kept.len() > 0
            invariant
                kept@.len() <= kept_full.len(),
                kept@ == kept_full.skip(kept_full.len() - kept@.len()),
                moved@.len() == kept_full.len() - kept@.len(),
                -RUNNING_SPEED <= velocity <= 0,
                forall|i: int|
                    0 <= i < kept_full.len() ==> ((#[trigger] kept_full[i]).spec_right() > 0
                        && obstacle_in_band(kept_full[i])),
                forall|i: int|
                    0 <= i < moved@.len() ==> (#[trigger] kept_full[i]).spec_moved_to(
                        moved@[i],
                        velocity,
                    ),
                forall|i: int| 0 <= i < moved@.len() ==> obstacle_in_band(#[trigger] moved@[i]),
                boy == spec_collide_seq(moved@, base_boy),
                boy.state_machine.inv(),
                boy.sprite_sheet == base_boy.sprite_sheet,
                boy_sheet_complete(boy.sprite_sheet),
            decreases kept@.len(),
        {
            let ghost pre = kept@;
            let ghost j = kept_full.len() - pre.len();
            let mut o = kept.remove(0);
            proof {
                assert(pre == kept_full.skip(j));
                assert(kept_full.skip(j)[0] == kept_full[j]);
                assert(o == kept_full[j]);
                assert(kept@ =~= kept_full.skip(j + 1));
                lemma_can_scroll(o, velocity);
            }
            o.move_horizontally(velocity);
            proof {
                lemma_moved_stays_in_band(kept_full[j], o, velocity);
                lemma_complete_sheet_usable(boy);
            }
            o.check_intersection(&mut boy);
            let ghost moved_pre = moved@;
            moved.push(o);
            proof {
                assert(moved@.drop_last() =~= moved_pre);
                assert(moved@.last() == o);
                assert(boy == spec_collide_seq(moved@, base_boy));
            }
        }

        let ghost moved_full = moved@;
        let mut walk = Walk {
            boy,
            backgrounds: [first, second],
            obstacles: moved,
            obstacle_sheet,
            stone_width,
            stone_height,
            timeline,
        };
        proof {
            assert(walk.obstacles@.take(walk.obstacles@.len() as int) =~= walk.obstacles@);
        }
        if walk.timeline < TIMELINE_MINIMUM {
            walk.generate_next_segment();
            proof {
                assert(moved_full.len() == kept_full.len());
                assert(walk.obstacles@.take(kept_full.len() as int) == moved_full);
                assert forall|i: int|
                    0 <= i < kept_full.len() implies (#[trigger] kept_full[i]).spec_moved_to(
                    walk.obstacles@[i],
                    velocity,
                ) by {
                    assert(walk.obstacles@.take(kept_full.len() as int)[i] == walk.obstacles@[i]);
                    assert(moved_full[i] == walk.obstacles@[i]);
                    assert(kept_full[i].spec_moved_to(moved_full[i], velocity));
                }
            }
        } else {
            walk.timeline = walk.timeline + velocity;
        }
        walk
    }

    /// Extends the course with a uniformly random choice between the two
    /// patterns.
    pub fn generate_next_segment(&mut self)
        requires
            old(self).wf(),
            old(self).timeline < TIMELINE_MINIMUM,
        ensures
            final(self).wf(),
            final(self).boy == old(self).boy,
            final(self).backgrounds == old(self).backgrounds,
            final(self).obstacle_sheet == old(self).obstacle_sheet,
            final(self).stone_width == old(self).stone_width,
            final(self).stone_height == old(self).stone_height,
            final(self).obstacles@.len() == old(self).obstacles@.len() + 2,
            final(self).obstacles@.take(old(self).obstacles@.len() as int) == old(
                self,
            ).obstacles@,
            ({
                let seg = final(self).obstacles@.skip(old(self).obstacles@.len() as int);
                let offset = (old(self).timeline + OBSTACLE_BUFFER) as i16;
                &&& (is_stone_and_platform(
                    seg,
                    old(self).obstacle_sheet,
                    old(self).stone_width,
                    old(self).stone_height,
                    offset,
                ) || is_platform_and_stone(
                    seg,
                    old(self).obstacle_sheet,
                    old(self).stone_width,
                    old(self).stone_height,
                    offset,
                ))
                &&& final(self).timeline == spec_rightmost(seg)
            }),
            final(self).timeline > old(self).timeline,
    {
        let next_segment = random_segment_choice();
        self.generate_next_segment_with(next_segment);
    }
}

/// One background scroll step preserves the tiling invariant: equal widths,
/// the tiles one width apart, both within the scrolling band.
proof fn lemma_bg_tick_ok(b0: Image, b1: Image, v: int)
    requires
        b0.wf(),
        b1.wf(),
        b0.bounding_box.width >= RUNNING_SPEED,
        b1.bounding_box.width == b0.bounding_box.width,
        b1.position.x == b0.position.x + b0.bounding_box.width || b0.position.x == b1.position.x
            + b0.bounding_box.width,
        -(b0.bounding_box.width + 2 * RUNNING_SPEED) <= b0.position.x <= 2 * MAX_SPRITE_DIM,
        -(b0.bounding_box.width + 2 * RUNNING_SPEED) <= b1.position.x <= 2 * MAX_SPRITE_DIM,
        -RUNNING_SPEED <= v <= 0,
    ensures
        ({
            let r = spec_bg_tick(b0, b1, v);
            let w = b0.bounding_box.width;
            &&& r.0.wf()
            &&& r.1.wf()
            &&& r.0.bounding_box.width == w
            &&& r.1.bounding_box.width == w
            &&& (r.1.position.x == r.0.position.x + w || r.0.position.x == r.1.position.x + w)
            &&& -(w + 2 * RUNNING_SPEED) <= r.0.position.x <= 2 * MAX_SPRITE_DIM
            &&& -(w + 2 * RUNNING_SPEED) <= r.1.position.x <= 2 * MAX_SPRITE_DIM
        }),
{
}


/// What one walking tick does: the character takes the pressed jump and
/// slide events and one physics step; the world scrolls by the negated
/// forward speed; the backgrounds ping-pong; the obstacles that had scrolled
/// off are dropped, the rest are shifted and collision-checked in order; and
/// the course is extended (watermark to the new segment's rightmost edge,
/// strictly forward) or the watermark decays by the scroll velocity.
pub open spec fn is_walking_tick(
    pre: Walk,
    post: Walk,
    pressed_space: bool,
    pressed_down: bool,
) -> bool {
    let b1 = if pressed_space {
        RedHatBoy {
            state_machine: pre.boy.state_machine.spec_transition(Event::Jump),
            sprite_sheet: pre.boy.sprite_sheet,
        }
    } else {
        pre.boy
    };
    let b2 = if pressed_down {
        RedHatBoy {
            state_machine: b1.state_machine.spec_transition(Event::Slide),
            sprite_sheet: b1.sprite_sheet,
        }
    } else {
        b1
    };
    let b3 = RedHatBoy {
        state_machine: b2.state_machine.spec_transition(Event::Update),
        sprite_sheet: b2.sprite_sheet,
    };
    let v = -b3.state_machine.spec_context().velocity.x;
    let kept = spec_retained(pre.obstacles@);
    let bgs = spec_bg_tick(pre.backgrounds@[0], pre.backgrounds@[1], v);
    &&& post.obstacle_sheet == pre.obstacle_sheet
    &&& post.stone_width == pre.stone_width
    &&& post.stone_height == pre.stone_height
    &&& post.backgrounds@[0] == bgs.0
    &&& post.backgrounds@[1] == bgs.1
    &&& forall|i: int|
        0 <= i < kept.len() ==> (#[trigger] kept[i]).spec_moved_to(post.obstacles@[i], v as i16)
    &&& post.boy == spec_collide_seq(post.obstacles@.take(kept.len() as int), b3)
    &&& if pre.timeline < TIMELINE_MINIMUM {
        let seg = post.obstacles@.skip(kept.len() as int);
        &&& post.obstacles@.len() == kept.len() + 2
        &&& (is_stone_and_platform(
            seg,
            pre.obstacle_sheet,
            pre.stone_width,
            pre.stone_height,
            (pre.timeline + OBSTACLE_BUFFER) as i16,
        ) || is_platform_and_stone(
            seg,
            pre.obstacle_sheet,
            pre.stone_width,
            pre.stone_height,
            (pre.timeline + OBSTACLE_BUFFER) as i16,
        ))
        &&& post.timeline == spec_rightmost(seg)
        &&& post.timeline > pre.timeline
    } else {
        &&& post.obstacles@.len() == kept.len()
        &&& post.timeline == pre.timeline + v
    }
}

/// What a restart does: the character rebuilt at its starting state, the
/// starting obstacle set regenerated, the watermark reset with its warm-up
/// margin, everything loaded reused unchanged.
pub open spec fn is_reset(pre: Walk, post: Walk) -> bool {
    &&& post.boy == RedHatBoy::new_spec(pre.boy.sprite_sheet)
    &&& post.backgrounds == pre.backgrounds
    &&& post.obstacle_sheet == pre.obstacle_sheet
    &&& post.stone_width == pre.stone_width
    &&& post.stone_height == pre.stone_height
    &&& is_one_stone(post.obstacles@, pre.stone_width, pre.stone_height, OBSTACLE_BUFFER)
    &&& post.timeline == spec_rightmost(post.obstacles@) + STARTING_TIMELINE_BUFFER
}

/// A live obstacle (in the band, not yet culled) can always be scrolled by
/// one step without leaving `i16`.
proof fn lemma_can_scroll(o: Obstacle, v: i16)
    requires
        obstacle_in_band(o),
        o.spec_right() > 0,
        -RUNNING_SPEED <= v <= 0,
    ensures
        o.spec_can_move(v),
{
    match o {
        Obstacle::Barrier(b) => {
        },
        Obstacle::Platform(p) => {
            assert forall|i: int|
                0 <= i < p.bounding_boxes@.len() implies i16::MIN <= (
            #[trigger] p.bounding_boxes@[i]).position.x + v <= i16::MAX by {
                assert(p.bounding_boxes@[i].wf());
                assert(p.bounding_boxes@[i].position.x >= p.spec_right() - OBSTACLE_SPAN);
            }
        },
    }
}

/// Scrolling a live obstacle left by at most one run-speed keeps it in the
/// band.
proof fn lemma_moved_stays_in_band(o: Obstacle, m: Obstacle, v: i16)
    requires
        obstacle_in_band(o),
        o.spec_right() > 0,
        -RUNNING_SPEED <= v <= 0,
        o.spec_moved_to(m, v),
    ensures
        obstacle_in_band(m),
        m.spec_right() == o.spec_right() + v,
{
    match (o, m) {
        (Obstacle::Barrier(b), Obstacle::Barrier(mb)) => {
        },
        (Obstacle::Platform(p), Obstacle::Platform(mp)) => {
            assert(p.bounding_boxes@.len() > 0);
            assert(mp.bounding_boxes@[mp.bounding_boxes@.len() - 1] == (Rect {
                position: Point {
                    x: (p.bounding_boxes@[p.bounding_boxes@.len() - 1].position.x + v) as i16,
                    y: p.bounding_boxes@[p.bounding_boxes@.len() - 1].position.y,
                },
                width: p.bounding_boxes@[p.bounding_boxes@.len() - 1].width,
                height: p.bounding_boxes@[p.bounding_boxes@.len() - 1].height,
            }));
            assert(p.bounding_boxes@[p.bounding_boxes@.len() - 1].wf());
            assert(mp.spec_right() == p.spec_right() + v);
            assert forall|i: int|
                0 <= i < mp.bounding_boxes@.len() implies ((#[trigger] mp.bounding_boxes@[i]).wf()
                && 0 <= mp.bounding_boxes@[i].position.y <= crate::redhatboy_state::MAX_LAND_POSITION
                && mp.bounding_boxes@[i].position.x >= mp.spec_right() - OBSTACLE_SPAN) by {
                assert(p.bounding_boxes@[i].wf());
                assert(0 <= p.bounding_boxes@[i].position.y
                    <= crate::redhatboy_state::MAX_LAND_POSITION);
                assert(p.bounding_boxes@[i].position.x >= p.spec_right() - OBSTACLE_SPAN);
            }
        },
        _ => {
            assert(false);
        },
    }
}

/// A freshly generated segment lies in the world band: generated before the
/// world limit, compact, and well formed.
proof fn lemma_segment_in_band(
    seg: Seq<Obstacle>,
    sheet: Sheet,
    stone_w: i16,
    stone_h: i16,
    offset: i16,
)
    requires
        0 <= offset <= MAX_SEGMENT_OFFSET,
        0 <= stone_w <= MAX_SPRITE_DIM,
        0 <= stone_h <= MAX_SPRITE_DIM,
        forall|i: int| 0 <= i < seg.len() ==> (#[trigger] seg[i]).wf(),
        is_stone_and_platform(seg, sheet, stone_w, stone_h, offset) || is_platform_and_stone(
            seg,
            sheet,
            stone_w,
            stone_h,
            offset,
        ),
    ensures
        forall|i: int| 0 <= i < seg.len() ==> obstacle_in_band(#[trigger] seg[i]),
        0 < spec_rightmost(seg) <= WORLD_RIGHT_LIMIT,
{
    lemma_rightmost_bounds(seg);
    assert(obstacle_in_band(seg[0]));
    assert(obstacle_in_band(seg[1]));
    assert forall|i: int| 0 <= i < seg.len() implies obstacle_in_band(#[trigger] seg[i]) by {
        assert(i == 0 || i == 1);
    }
    assert(seg[0].spec_right() > 0);
}

} // verus!
