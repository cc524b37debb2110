use vstd::prelude::*;
use vstd::string::StrSliceExecFns;
use vstd::string::StringExecFns;

use crate::point::Point;
use crate::rect::Rect;
use crate::redhatboy_state::{
    Event, RedHatBoyContext, RedHatBoyStateMachine, FALLING_FRAMES, FLOOR, IDLE_FRAMES,
    JUMPING_FRAMES, MAX_LAND_POSITION, RUNNING_FRAMES, SLIDING_FRAMES, STARTING_POINT,
};
use crate::renderer::{DrawCommand, ImageId};
use crate::sheet::{Cell, Sheet};

verus! {

/// Insets shrinking the visual sprite box to the narrower hit box used for
/// collision: an intentional gameplay-fairness margin.
pub const X_OFFSET: i16 = 18;
pub const Y_OFFSET: i16 = 14;
pub const WIDTH_OFFSET: i16 = 28;

/// Decimal label of an animation frame index (the indices run from 1 to 12).
pub open spec fn spec_digit_label(n: u8) -> Seq<char> {
    if n == 1 {
        "1"@
    } else if n == 2 {
        "2"@
    } else if n == 3 {
        "3"@
    } else if n == 4 {
        "4"@
    } else if n == 5 {
        "5"@
    } else if n == 6 {
        "6"@
    } else if n == 7 {
        "7"@
    } else if n == 8 {
        "8"@
    } else if n == 9 {
        "9"@
    } else if n == 10 {
        "10"@
    } else if n == 11 {
        "11"@
    } else {
        "12"@
    }
}

fn digit_label(n: u8) -> (r: &'static str)
    requires
        1 <= n <= 12,
    ensures
        r@ == spec_digit_label(n),
{
    match n {
        1 => "1",
        2 => "2",
        3 => "3",
        4 => "4",
        5 => "5",
        6 => "6",
        7 => "7",
        8 => "8",
        9 => "9",
        10 => "10",
        11 => "11",
        _ => "12",
    }
}

/// The sprite name of animation frame `n` of the state tagged `tag`:
/// the tag, a space, the index in parentheses, and the `.png` suffix.
pub open spec fn spec_frame_label(tag: Seq<char>, n: u8) -> Seq<char> {
    tag + " ("@ + spec_digit_label(n) + ").png"@
}

/// Builds the sprite name of animation frame `n` of the state tagged `tag`.
pub fn frame_label(tag: &str, n: u8) -> (r: String)
    requires
        1 <= n <= 12,
    ensures
        r@ == spec_frame_label(tag@, n),
{
    let mut s = tag.to_owned();
    s.append(" (");
    s.append(digit_label(n));
    s.append(").png");
    proof {
        assert(s@ =~= spec_frame_label(tag@, n));
    }
    s
}

/// A sprite cell the character can be drawn and collision-checked with:
/// well formed and at least as large as the hit-box insets.
pub open spec fn spec_usable_cell(c: Cell) -> bool {
    &&& c.wf()
    &&& c.frame.w >= WIDTH_OFFSET
    &&& c.frame.h >= Y_OFFSET
}

/// Every animation frame of the state tagged `tag` has a usable cell in the
/// sheet.
pub open spec fn spec_tag_complete(sheet: Sheet, tag: Seq<char>, frames: u8) -> bool {
    forall|fr: u8|
        fr <= frames ==> ((#[trigger] sheet.spec_cell(
            spec_frame_label(tag, (fr / 3 + 1) as u8),
        )) matches Some(c) && spec_usable_cell(c))
}

/// The sheet has a usable cell for every animation frame of every character
/// state: the configuration the character's drawing and collision rely on.
pub open spec fn boy_sheet_complete(sheet: Sheet) -> bool {
    &&& spec_tag_complete(sheet, "Idle"@, IDLE_FRAMES)
    &&& spec_tag_complete(sheet, "Run"@, RUNNING_FRAMES)
    &&& spec_tag_complete(sheet, "Slide"@, SLIDING_FRAMES)
    &&& spec_tag_complete(sheet, "Jump"@, JUMPING_FRAMES)
    &&& spec_tag_complete(sheet, "Dead"@, FALLING_FRAMES)
}

/// Checks one state tag's animation frames against the sheet.
fn check_tag_complete(sheet: &Sheet, tag: &str, frames: u8) -> (r: bool)
    requires
        frames <= 35,
    ensures
        r == spec_tag_complete(*sheet, tag@, frames),
{
    let mut fr: u8 = 0;
    while fr <= frames
        invariant
            fr <= frames + 1,
            frames <= 35,
            forall|j: u8|
                j < fr ==> ((#[trigger] sheet.spec_cell(
                    spec_frame_label(tag@, (j / 3 + 1) as u8),
                )) matches Some(c) && spec_usable_cell(c)),
        decreases frames + 1 - fr,
    {
        let name = frame_label(tag, fr / 3 + 1);
        match sheet.cell(&name) {
            Some(c) => {
                if !(c.is_wf() && c.frame.w >= WIDTH_OFFSET && c.frame.h >= Y_OFFSET) {
                    return false;
                }
            },
            None => {
                return false;
            },
        }
        fr = fr + 1;
    }
    true
}

/// Checks that the sheet has a usable cell for every animation frame of
/// every character state. A sheet failing this is a configuration error the
/// caller should surface before play begins.
pub fn check_boy_sheet_complete(sheet: &Sheet) -> (r: bool)
    ensures
        r == boy_sheet_complete(*sheet),
{
    check_tag_complete(sheet, "Idle", IDLE_FRAMES) && check_tag_complete(
        sheet,
        "Run",
        RUNNING_FRAMES,
    ) && check_tag_complete(sheet, "Slide", SLIDING_FRAMES) && check_tag_complete(
        sheet,
        "Jump",
        JUMPING_FRAMES,
    ) && check_tag_complete(sheet, "Dead", FALLING_FRAMES)
}

/// The player character: its locomotion state machine plus the sprite sheet
/// its animation frames are drawn from.
#[derive(Clone, Debug)]
pub struct RedHatBoy {
    pub state_machine: RedHatBoyStateMachine,
    pub sprite_sheet: Sheet,
}

impl RedHatBoy {
    /// The 1-based index of the sprite of the current animation frame:
    /// each sprite is shown for three consecutive frames.
    pub open spec fn spec_frame_index(self) -> u8 {
        (self.state_machine.spec_context().frame / 3 + 1) as u8
    }

    /// The sprite name of the current state and animation frame.
    pub open spec fn spec_frame_name(self) -> Seq<char> {
        spec_frame_label(self.state_machine.spec_frame_name(), self.spec_frame_index())
    }

    /// The sheet cell of the current animation frame, if the sheet has it.
    pub open spec fn spec_current_cell(self) -> Option<Cell> {
        self.sprite_sheet.spec_cell(self.spec_frame_name())
    }

    /// The sheet holds a usable cell for the current animation frame.
    pub open spec fn has_usable_sprite(self) -> bool {
        self.spec_current_cell() matches Some(c) && spec_usable_cell(c)
    }

    /// The visual sprite box: the current cell blitted at the character's
    /// position, offset by the cell's source offsets.
    pub open spec fn spec_destination_box(self) -> Rect {
        let c = self.spec_current_cell()->Some_0;
        let ctx = self.state_machine.spec_context();
        Rect {
            position: Point {
                x: (ctx.position.x + c.sprite_source_size.x) as i16,
                y: (ctx.position.y + c.sprite_source_size.y) as i16,
            },
            width: c.frame.w,
            height: c.frame.h,
        }
    }

    /// The hit box: the visual box shrunk by the fixed insets.
    pub open spec fn spec_bounding_box(self) -> Rect {
        let d = self.spec_destination_box();
        Rect {
            position: Point {
                x: (d.position.x + X_OFFSET) as i16,
                y: (d.position.y + Y_OFFSET) as i16,
            },
            width: (d.width - WIDTH_OFFSET) as i16,
            height: (d.height - Y_OFFSET) as i16,
        }
    }

    /// The sheet region the current sprite is read from.
    pub open spec fn spec_source_box(self) -> Rect {
        let c = self.spec_current_cell()->Some_0;
        Rect {
            position: Point { x: c.frame.x, y: c.frame.y },
            width: c.frame.w,
            height: c.frame.h,
        }
    }

    /// A fresh character: idle, just off screen to the left, at rest on the
    /// floor.
    pub fn new(sprite_sheet: Sheet) -> (r: RedHatBoy)
        ensures
            r.state_machine == RedHatBoyStateMachine::Idle(
                RedHatBoyContext {
                    frame: 0,
                    position: Point { x: STARTING_POINT, y: FLOOR },
                    velocity: Point { x: 0, y: 0 },
                },
            ),
            r.sprite_sheet == sprite_sheet,
            r.state_machine.inv(),
    {
        RedHatBoy {
            state_machine: RedHatBoyStateMachine::Idle(
                RedHatBoyContext {
                    frame: 0,
                    position: Point { x: STARTING_POINT, y: FLOOR },
                    velocity: Point { x: 0, y: 0 },
                },
            ),
            sprite_sheet,
        }
    }

    /// A fresh character reusing the sheet of a spent one.
    pub fn reset(boy: RedHatBoy) -> (r: RedHatBoy)
        ensures
            r == RedHatBoy::new_spec(boy.sprite_sheet),
            r.state_machine.inv(),
    {
        RedHatBoy::new(boy.sprite_sheet)
    }

    /// What `new` constructs.
    pub open spec fn new_spec(sprite_sheet: Sheet) -> RedHatBoy {
        RedHatBoy {
            state_machine: RedHatBoyStateMachine::Idle(
                RedHatBoyContext {
                    frame: 0,
                    position: Point { x: STARTING_POINT, y: FLOOR },
                    velocity: Point { x: 0, y: 0 },
                },
            ),
            sprite_sheet,
        }
    }

    /// One physics tick.
    pub fn update(&mut self)
        requires
            old(self).state_machine.inv(),
        ensures
            final(self).state_machine == old(self).state_machine.spec_transition(Event::Update),
            final(self).state_machine.inv(),
            final(self).sprite_sheet == old(self).sprite_sheet,
    {
        self.state_machine = self.state_machine.transition(Event::Update);
    }

    pub fn run_right(&mut self)
        requires
            old(self).state_machine.inv(),
        ensures
            final(self).state_machine == old(self).state_machine.spec_transition(Event::Run),
            final(self).state_machine.inv(),
            final(self).sprite_sheet == old(self).sprite_sheet,
    {
        self.state_machine = self.state_machine.transition(Event::Run);
    }

    pub fn slide(&mut self)
        requires
            old(self).state_machine.inv(),
        ensures
            final(self).state_machine == old(self).state_machine.spec_transition(Event::Slide),
            final(self).state_machine.inv(),
            final(self).sprite_sheet == old(self).sprite_sheet,
    {
        self.state_machine = self.state_machine.transition(Event::Slide);
    }

    /// Requests a jump. The caller is responsible for the jump sound effect;
    /// see the game-flow effects.
    pub fn jump(&mut self)
        requires
            old(self).state_machine.inv(),
        ensures
            final(self).state_machine == old(self).state_machine.spec_transition(Event::Jump),
            final(self).state_machine.inv(),
            final(self).sprite_sheet == old(self).sprite_sheet,
    {
        self.state_machine = self.state_machine.transition(Event::Jump);
    }

    pub fn land_on(&mut self, position: i16)
        requires
            old(self).state_machine.inv(),
            0 <= position <= MAX_LAND_POSITION,
        ensures
            final(self).state_machine == old(self).state_machine.spec_transition(
                Event::Land(position),
            ),
            final(self).state_machine.inv(),
            final(self).sprite_sheet == old(self).sprite_sheet,
    {
        self.state_machine = self.state_machine.transition(Event::Land(position));
    }

    pub fn knock_out(&mut self)
        requires
            old(self).state_machine.inv(),
        ensures
            final(self).state_machine == old(self).state_machine.spec_transition(Event::KnockOut),
            final(self).state_machine.inv(),
            final(self).sprite_sheet == old(self).sprite_sheet,
    {
        self.state_machine = self.state_machine.transition(Event::KnockOut);
    }

    /// The character's forward speed; the world scrolls by its negation.
    pub fn walking_speed(&self) -> (r: i16)
        ensures
            r == self.state_machine.spec_context().velocity.x,
    {
        self.state_machine.context().velocity.x
    }

    pub fn pos_y(&self) -> (r: i16)
        ensures
            r == self.state_machine.spec_context().position.y,
    {
        self.state_machine.context().position.y
    }

    pub fn velocity_y(&self) -> (r: i16)
        ensures
            r == self.state_machine.spec_context().velocity.y,
    {
        self.state_machine.context().velocity.y
    }

    pub fn knocked_out(&self) -> (r: bool)
        ensures
            r == (self.state_machine is KnockedOut),
    {
        self.state_machine.knocked_out()
    }

    /// The sprite name of the current state and animation frame.
    pub fn frame_name(&self) -> (r: String)
        requires
            self.state_machine.inv(),
        ensures
            r@ == self.spec_frame_name(),
    {
        let idx = self.state_machine.context().frame / 3 + 1;
        frame_label(self.state_machine.frame_name(), idx)
    }

    /// The sheet cell of the current animation frame, if the sheet has it.
    pub fn current_sprite(&self) -> (r: Option<&Cell>)
        requires
            self.state_machine.inv(),
        ensures
            match r {
                Some(c) => self.spec_current_cell() == Some(*c),
                None => self.spec_current_cell() is None,
            },
    {
        let name = self.frame_name();
        self.sprite_sheet.cell(&name)
    }

    /// The visual sprite box of the current frame.
    pub fn destination_box(&self) -> (r: Rect)
        requires
            self.state_machine.inv(),
            self.has_usable_sprite(),
        ensures
            r == self.spec_destination_box(),
            r.wf(),
    {
        let ctx = *self.state_machine.context();
        match self.current_sprite() {
            Some(sprite) => {
                Rect::new_from_x_y(
                    ctx.position.x + sprite.sprite_source_size.x,
                    ctx.position.y + sprite.sprite_source_size.y,
                    sprite.frame.w,
                    sprite.frame.h,
                )
            },
            None => {
                proof {
                    assert(false);
                }
                Rect::new_from_x_y(0, 0, 0, 0)
            },
        }
    }

    /// The hit box of the current frame: the visual box shrunk by the fixed
    /// insets.
    pub fn bounding_box(&self) -> (r: Rect)
        requires
            self.state_machine.inv(),
            self.has_usable_sprite(),
        ensures
            r == self.spec_bounding_box(),
            r.wf(),
    {
        let destination = self.destination_box();
        Rect::new_from_x_y(
            destination.x() + X_OFFSET,
            destination.y() + Y_OFFSET,
            destination.width - WIDTH_OFFSET,
            destination.height - Y_OFFSET,
        )
    }

    /// The character's rendering: its current sprite, and the outline of its
    /// hit box.
    pub open spec fn spec_draw(self) -> Seq<DrawCommand> {
        seq![
            DrawCommand::Sprite {
                image: ImageId::Boy,
                source: self.spec_source_box(),
                destination: self.spec_destination_box(),
            },
            DrawCommand::Outline { rect: self.spec_bounding_box() },
        ]
    }

    pub fn draw(&self) -> (r: Vec<DrawCommand>)
        requires
            self.state_machine.inv(),
            self.has_usable_sprite(),
        ensures
            r@ == self.spec_draw(),
    {
        match self.current_sprite() {
            Some(sprite) => {
                let source = Rect::new_from_x_y(
                    sprite.frame.x,
                    sprite.frame.y,
                    sprite.frame.w,
                    sprite.frame.h,
                );
                let destination = self.destination_box();
                let outline = self.bounding_box();
                let r = vec![
                    DrawCommand::Sprite { image: ImageId::Boy, source, destination },
                    DrawCommand::Outline { rect: outline },
                ];
                proof {
                    assert(r@ =~= self.spec_draw());
                }
                r
            },
            None => {
                proof {
                    assert(false);
                }
                vec![]
            },
        }
    }
}

/// A character whose sheet is complete always has a usable sprite for its
/// current animation frame.
pub proof fn lemma_complete_sheet_usable(boy: RedHatBoy)
    requires
        boy.state_machine.inv(),
        boy_sheet_complete(boy.sprite_sheet),
    ensures
        boy.has_usable_sprite(),
{
    let fr = boy.state_machine.spec_context().frame;
    match boy.state_machine {
        RedHatBoyStateMachine::Idle(_) => {
            assert(boy.sprite_sheet.spec_cell(
                spec_frame_label("Idle"@, (fr / 3 + 1) as u8),
            ) matches Some(c) && spec_usable_cell(c));
        },
        RedHatBoyStateMachine::Running(_) => {
            assert(boy.sprite_sheet.spec_cell(
                spec_frame_label("Run"@, (fr / 3 + 1) as u8),
            ) matches Some(c) && spec_usable_cell(c));
        },
        RedHatBoyStateMachine::Sliding(_) => {
            assert(boy.sprite_sheet.spec_cell(
                spec_frame_label("Slide"@, (fr / 3 + 1) as u8),
            ) matches Some(c) && spec_usable_cell(c));
        },
        RedHatBoyStateMachine::Jumping(_) => {
            assert(boy.sprite_sheet.spec_cell(
                spec_frame_label("Jump"@, (fr / 3 + 1) as u8),
            ) matches Some(c) && spec_usable_cell(c));
        },
        RedHatBoyStateMachine::Falling(_) => {
            assert(boy.sprite_sheet.spec_cell(
                spec_frame_label("Dead"@, (fr / 3 + 1) as u8),
            ) matches Some(c) && spec_usable_cell(c));
        },
        RedHatBoyStateMachine::KnockedOut(_) => {
            assert(boy.sprite_sheet.spec_cell(
                spec_frame_label("Dead"@, (fr / 3 + 1) as u8),
            ) matches Some(c) && spec_usable_cell(c));
        },
    }
}

} // verus!
