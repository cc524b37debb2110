use vstd::prelude::*;

use crate::point::Point;

verus! {

/// The vertical coordinate of the ground the character stands on.
pub const FLOOR: i16 = 479;
/// Height of the world in pixels.
pub const HEIGHT: i16 = 600;
/// Height of the character: landing on `y` puts the character at `y - PLAYER_HEIGHT`.
pub const PLAYER_HEIGHT: i16 = HEIGHT - FLOOR;
/// Horizontal speed added by one `run` transition.
pub const RUNNING_SPEED: i16 = 4;
/// The character's fixed horizontal position.
pub const STARTING_POINT: i16 = -20;

/// Animation loop lengths, one per state.
pub const IDLE_FRAMES: u8 = 29;
pub const RUNNING_FRAMES: u8 = 23;
pub const JUMPING_FRAMES: u8 = 35;
pub const SLIDING_FRAMES: u8 = 14;
pub const FALLING_FRAMES: u8 = 29;

/// Initial (upward, hence negative) vertical velocity of a jump.
pub const JUMP_SPEED: i16 = -25;
/// Downward acceleration applied each tick.
pub const GRAVITY: i16 = 1;
/// Cap on downward velocity.
pub const TERMINAL_VELOCITY: i16 = 20;

/// Largest world coordinate a landing position or obstacle edge may have.
/// Keeping coordinates below this bound keeps every physics step within `i16`.
pub const MAX_LAND_POSITION: i16 = 2048;

/// Total upward distance still to be travelled before gravity turns the
/// vertical velocity `vy` non-negative: the sum `|vy + 1| + |vy + 2| + ...`
/// over the ticks with a still-negative velocity.
pub open spec fn pending_rise(vy: int) -> int
    decreases if vy < 0 { -vy } else { 0 },
{
    if vy < 0 {
        pending_rise(vy + 1) - (vy + 1)
    } else {
        0
    }
}

/// Closed form of the pending rise: the triangular sum `1 + 2 + ... + (-vy - 1)`.
pub proof fn lemma_pending_rise_formula(vy: int)
    requires
        vy <= 0,
    ensures
        2 * pending_rise(vy) == (-vy - 1) * (-vy),
    decreases -vy,
{
    if vy < 0 {
        lemma_pending_rise_formula(vy + 1);
        assert(2 * pending_rise(vy) == (-vy - 1) * (-vy)) by (nonlinear_arith)
            requires
                pending_rise(vy) == pending_rise(vy + 1) - (vy + 1),
                2 * pending_rise(vy + 1) == (-(vy + 1) - 1) * (-(vy + 1)),
        {
        }
    } else {
        assert(pending_rise(vy) == 0);
        assert((-vy - 1) * (-vy) == 0) by (nonlinear_arith)
            requires
                vy == 0,
        {
        }
    }
}

/// For velocities reachable in the game the pending rise is between 0 and
/// the rise of a fresh jump, `24 + 23 + ... + 1 == 300`.
pub proof fn lemma_pending_rise_bounds(vy: int)
    requires
        JUMP_SPEED <= vy,
    ensures
        0 <= pending_rise(vy) <= 300,
{
    if vy < 0 {
        lemma_pending_rise_formula(vy);
        assert(0 <= (-vy - 1) * (-vy) <= 600) by (nonlinear_arith)
            requires
                -25 <= vy < 0,
        {
        }
    }
}

/// Mutable physical state shared by all character states: animation frame
/// counter, position and velocity.
#[derive(Clone, Copy, PartialEq, Eq, Structural, Debug)]
pub struct RedHatBoyContext {
    pub frame: u8,
    pub position: Point,
    pub velocity: Point,
}

impl RedHatBoyContext {
    /// One physics tick: gravity up to the terminal velocity, frame advance
    /// wrapping at `frame_count`, velocity applied to the position, and the
    /// position clamped to the floor.
    pub open spec fn spec_updated(self, frame_count: u8) -> RedHatBoyContext {
        let vy = if self.velocity.y < TERMINAL_VELOCITY {
            self.velocity.y + GRAVITY
        } else {
            self.velocity.y as int
        };
        let fr = if self.frame < frame_count {
            self.frame + 1
        } else {
            0
        };
        let y0 = self.position.y + vy;
        let y = if y0 > FLOOR {
            FLOOR as int
        } else {
            y0
        };
        RedHatBoyContext {
            frame: fr as u8,
            position: Point { x: self.position.x, y: y as i16 },
            velocity: Point { x: self.velocity.x, y: vy as i16 },
        }
    }

    pub open spec fn spec_reset_frame(self) -> RedHatBoyContext {
        RedHatBoyContext { frame: 0, position: self.position, velocity: self.velocity }
    }

    pub open spec fn spec_with_vertical_velocity(self, y: i16) -> RedHatBoyContext {
        RedHatBoyContext {
            frame: self.frame,
            position: self.position,
            velocity: Point { x: self.velocity.x, y },
        }
    }

    pub open spec fn spec_run_right(self) -> RedHatBoyContext {
        RedHatBoyContext {
            frame: self.frame,
            position: self.position,
            velocity: Point {
                x: (self.velocity.x + RUNNING_SPEED) as i16,
                y: self.velocity.y,
            },
        }
    }

    pub open spec fn spec_stopped(self) -> RedHatBoyContext {
        RedHatBoyContext {
            frame: self.frame,
            position: self.position,
            velocity: Point { x: 0, y: 0 },
        }
    }

    pub open spec fn spec_on(self, position: i16) -> RedHatBoyContext {
        RedHatBoyContext {
            frame: self.frame,
            position: Point { x: self.position.x, y: (position - PLAYER_HEIGHT) as i16 },
            velocity: self.velocity,
        }
    }

    pub fn update(self, frame_count: u8) -> (r: RedHatBoyContext)
        requires
            i16::MIN <= self.position.y + self.velocity.y,
            self.position.y + self.velocity.y + GRAVITY <= i16::MAX,
        ensures
            r == self.spec_updated(frame_count),
    {
        let mut next = self;
        if next.velocity.y < TERMINAL_VELOCITY {
            next.velocity.y = next.velocity.y + GRAVITY;
        }
        if next.frame < frame_count {
            next.frame = next.frame + 1;
        } else {
            next.frame = 0;
        }
        next.position.y = next.position.y + next.velocity.y;
        if next.position.y > FLOOR {
            next.position.y = FLOOR;
        }
        next
    }

    pub fn reset_frame(self) -> (r: RedHatBoyContext)
        ensures
            r == self.spec_reset_frame(),
    {
        let mut next = self;
        next.frame = 0;
        next
    }

    pub fn set_vertical_velocity(self, y: i16) -> (r: RedHatBoyContext)
        ensures
            r == self.spec_with_vertical_velocity(y),
    {
        let mut next = self;
        next.velocity.y = y;
        next
    }

    /// Adds one increment of run speed. Deliberately not idempotent: calling
    /// it twice compounds the speed by a second increment.
    pub fn run_right(self) -> (r: RedHatBoyContext)
        requires
            self.velocity.x + RUNNING_SPEED <= i16::MAX,
        ensures
            r == self.spec_run_right(),
    {
        let mut next = self;
        next.velocity.x = next.velocity.x + RUNNING_SPEED;
        next
    }

    pub fn stop(self) -> (r: RedHatBoyContext)
        ensures
            r == self.spec_stopped(),
    {
        let mut next = self;
        next.velocity.x = 0;
        next.velocity.y = 0;
        next
    }

    pub fn set_on(self, position: i16) -> (r: RedHatBoyContext)
        requires
            i16::MIN + PLAYER_HEIGHT <= position,
        ensures
            r == self.spec_on(position),
    {
        let mut next = self;
        next.position.y = position - PLAYER_HEIGHT;
        next
    }
}

/// Events delivered to the character state machine, by the player's input
/// (`Run`, `Slide`, `Jump`), by collision outcomes (`KnockOut`, `Land`), or
/// by the per-tick clock (`Update`).
#[derive(Clone, Copy, PartialEq, Eq, Structural, Debug)]
pub enum Event {
    Run,
    Slide,
    Jump,
    KnockOut,
    Land(i16),
    Update,
}

/// The character locomotion state machine: exactly one state is live at a
/// time, each carrying the shared physical context.
#[derive(Clone, Copy, PartialEq, Eq, Structural, Debug)]
pub enum RedHatBoyStateMachine {
    Idle(RedHatBoyContext),
    Running(RedHatBoyContext),
    Sliding(RedHatBoyContext),
    Jumping(RedHatBoyContext),
    Falling(RedHatBoyContext),
    KnockedOut(RedHatBoyContext),
}

impl RedHatBoyStateMachine {
    pub open spec fn spec_context(self) -> RedHatBoyContext {
        match self {
            RedHatBoyStateMachine::Idle(c) => c,
            RedHatBoyStateMachine::Running(c) => c,
            RedHatBoyStateMachine::Sliding(c) => c,
            RedHatBoyStateMachine::Jumping(c) => c,
            RedHatBoyStateMachine::Falling(c) => c,
            RedHatBoyStateMachine::KnockedOut(c) => c,
        }
    }

    /// The animation loop length of the current state.
    pub open spec fn spec_frames(self) -> u8 {
        match self {
            RedHatBoyStateMachine::Idle(_) => IDLE_FRAMES,
            RedHatBoyStateMachine::Running(_) => RUNNING_FRAMES,
            RedHatBoyStateMachine::Sliding(_) => SLIDING_FRAMES,
            RedHatBoyStateMachine::Jumping(_) => JUMPING_FRAMES,
            RedHatBoyStateMachine::Falling(_) => FALLING_FRAMES,
            RedHatBoyStateMachine::KnockedOut(_) => FALLING_FRAMES,
        }
    }

    /// The animation tag of the current state.
    pub open spec fn spec_frame_name(self) -> Seq<char> {
        match self {
            RedHatBoyStateMachine::Idle(_) => "Idle"@,
            RedHatBoyStateMachine::Running(_) => "Run"@,
            RedHatBoyStateMachine::Sliding(_) => "Slide"@,
            RedHatBoyStateMachine::Jumping(_) => "Jump"@,
            RedHatBoyStateMachine::Falling(_) => "Dead"@,
            RedHatBoyStateMachine::KnockedOut(_) => "Dead"@,
        }
    }

    /// States in which the character is on, or bound for, a surface; the
    /// remaining states may additionally owe the full rise of a fresh jump.
    pub open spec fn spec_grounded(self) -> bool {
        match self {
            RedHatBoyStateMachine::Idle(_) => true,
            RedHatBoyStateMachine::Running(_) => true,
            RedHatBoyStateMachine::Sliding(_) => true,
            _ => false,
        }
    }

    /// Invariant of every reachable machine state. The last two clauses
    /// bound how far above the lowest landing position (`-PLAYER_HEIGHT`)
    /// the character can still rise, which keeps all position arithmetic
    /// within `i16`.
    pub open spec fn inv(self) -> bool {
        let c = self.spec_context();
        &&& JUMP_SPEED <= c.velocity.y <= TERMINAL_VELOCITY
        &&& 0 <= c.velocity.x <= RUNNING_SPEED
        &&& (self is Idle ==> c.velocity.x == 0)
        &&& c.position.x == STARTING_POINT
        &&& c.frame <= self.spec_frames()
        &&& c.position.y <= MAX_LAND_POSITION
        &&& c.position.y - pending_rise(c.velocity.y as int) >= if self.spec_grounded() {
            -PLAYER_HEIGHT - 300
        } else {
            -PLAYER_HEIGHT - 600
        }
    }

    /// The transition table. An event that is not valid for the current
    /// state leaves the state unchanged: deliberate permissiveness, not an
    /// error.
    pub open spec fn spec_transition(self, event: Event) -> RedHatBoyStateMachine {
        match (self, event) {
            (RedHatBoyStateMachine::Idle(c), Event::Run) => RedHatBoyStateMachine::Running(
                c.spec_reset_frame().spec_run_right(),
            ),
            (RedHatBoyStateMachine::Running(c), Event::Slide) => RedHatBoyStateMachine::Sliding(
                c.spec_reset_frame(),
            ),
            (RedHatBoyStateMachine::Running(c), Event::Jump) => RedHatBoyStateMachine::Jumping(
                c.spec_reset_frame().spec_with_vertical_velocity(JUMP_SPEED),
            ),
            (RedHatBoyStateMachine::Running(c), Event::Land(p)) => RedHatBoyStateMachine::Running(
                c.spec_on(p),
            ),
            (RedHatBoyStateMachine::Sliding(c), Event::Land(p)) => RedHatBoyStateMachine::Sliding(
                c.spec_on(p),
            ),
            (RedHatBoyStateMachine::Jumping(c), Event::Land(p)) => RedHatBoyStateMachine::Running(
                c.spec_reset_frame().spec_on(p),
            ),
            (RedHatBoyStateMachine::Running(c), Event::KnockOut) => RedHatBoyStateMachine::Falling(
                c.spec_reset_frame().spec_stopped(),
            ),
            (RedHatBoyStateMachine::Sliding(c), Event::KnockOut) => RedHatBoyStateMachine::Falling(
                c.spec_reset_frame().spec_stopped(),
            ),
            (RedHatBoyStateMachine::Jumping(c), Event::KnockOut) => RedHatBoyStateMachine::Falling(
                c.spec_reset_frame().spec_stopped(),
            ),
            (RedHatBoyStateMachine::Idle(c), Event::Update) => RedHatBoyStateMachine::Idle(
                c.spec_updated(IDLE_FRAMES),
            ),
            (RedHatBoyStateMachine::Running(c), Event::Update) => RedHatBoyStateMachine::Running(
                c.spec_updated(RUNNING_FRAMES),
            ),
            (RedHatBoyStateMachine::Sliding(c), Event::Update) => {
                let n = c.spec_updated(SLIDING_FRAMES);
                if n.frame >= SLIDING_FRAMES {
                    RedHatBoyStateMachine::Running(n.spec_reset_frame())
                } else {
                    RedHatBoyStateMachine::Sliding(n)
                }
            },
            (RedHatBoyStateMachine::Jumping(c), Event::Update) => {
                let n = c.spec_updated(JUMPING_FRAMES);
                if n.position.y >= FLOOR {
                    RedHatBoyStateMachine::Running(n.spec_reset_frame().spec_on(HEIGHT))
                } else {
                    RedHatBoyStateMachine::Jumping(n)
                }
            },
            (RedHatBoyStateMachine::Falling(c), Event::Update) => {
                let n = c.spec_updated(FALLING_FRAMES);
                if n.frame >= FALLING_FRAMES {
                    RedHatBoyStateMachine::KnockedOut(n)
                } else {
                    RedHatBoyStateMachine::Falling(n)
                }
            },
            _ => self,
        }
    }

    pub fn context(&self) -> (r: &RedHatBoyContext)
        ensures
            *r == self.spec_context(),
    {
        match self {
            RedHatBoyStateMachine::Idle(c) => c,
            RedHatBoyStateMachine::Running(c) => c,
            RedHatBoyStateMachine::Sliding(c) => c,
            RedHatBoyStateMachine::Jumping(c) => c,
            RedHatBoyStateMachine::Falling(c) => c,
            RedHatBoyStateMachine::KnockedOut(c) => c,
        }
    }

    pub fn transition(self, event: Event) -> (r: RedHatBoyStateMachine)
        requires
            self.inv(),
            event matches Event::Land(p) ==> 0 <= p <= MAX_LAND_POSITION,
        ensures
            r == self.spec_transition(event),
            r.inv(),
    {
        proof {
            lemma_pending_rise_bounds(self.spec_context().velocity.y as int);
        }
        match (self, event) {
            (RedHatBoyStateMachine::Idle(c), Event::Run) => {
                RedHatBoyStateMachine::Running(c.reset_frame().run_right())
            },
            (RedHatBoyStateMachine::Running(c), Event::Slide) => {
                RedHatBoyStateMachine::Sliding(c.reset_frame())
            },
            (RedHatBoyStateMachine::Running(c), Event::Jump) => {
                proof {
                    lemma_pending_rise_bounds(JUMP_SPEED as int);
                }
                RedHatBoyStateMachine::Jumping(
                    c.reset_frame().set_vertical_velocity(JUMP_SPEED),
                )
            },
            (RedHatBoyStateMachine::Running(c), Event::Land(p)) => {
                RedHatBoyStateMachine::Running(c.set_on(p))
            },
            (RedHatBoyStateMachine::Sliding(c), Event::Land(p)) => {
                RedHatBoyStateMachine::Sliding(c.set_on(p))
            },
            (RedHatBoyStateMachine::Jumping(c), Event::Land(p)) => {
                RedHatBoyStateMachine::Running(c.reset_frame().set_on(p))
            },
            (RedHatBoyStateMachine::Running(c), Event::KnockOut) => {
                RedHatBoyStateMachine::Falling(c.reset_frame().stop())
            },
            (RedHatBoyStateMachine::Sliding(c), Event::KnockOut) => {
                RedHatBoyStateMachine::Falling(c.reset_frame().stop())
            },
            (RedHatBoyStateMachine::Jumping(c), Event::KnockOut) => {
                RedHatBoyStateMachine::Falling(c.reset_frame().stop())
            },
            (RedHatBoyStateMachine::Idle(c), Event::Update) => {
                let n = c.update(IDLE_FRAMES);
                proof {
                    lemma_pending_rise_bounds(n.velocity.y as int);
                }
                RedHatBoyStateMachine::Idle(n)
            },
            (RedHatBoyStateMachine::Running(c), Event::Update) => {
                let n = c.update(RUNNING_FRAMES);
                proof {
                    lemma_pending_rise_bounds(n.velocity.y as int);
                }
                RedHatBoyStateMachine::Running(n)
            },
            (RedHatBoyStateMachine::Sliding(c), Event::Update) => {
                let n = c.update(SLIDING_FRAMES);
                proof {
                    lemma_pending_rise_bounds(n.velocity.y as int);
                }
                if n.frame >= SLIDING_FRAMES {
                    RedHatBoyStateMachine::Running(n.reset_frame())
                } else {
                    RedHatBoyStateMachine::Sliding(n)
                }
            },
            (RedHatBoyStateMachine::Jumping(c), Event::Update) => {
                let n = c.update(JUMPING_FRAMES);
                proof {
                    lemma_pending_rise_bounds(n.velocity.y as int);
                }
                if n.position.y >= FLOOR {
                    RedHatBoyStateMachine::Running(n.reset_frame().set_on(HEIGHT))
                } else {
                    RedHatBoyStateMachine::Jumping(n)
                }
            },
            (RedHatBoyStateMachine::Falling(c), Event::Update) => {
                let n = c.update(FALLING_FRAMES);
                proof {
                    lemma_pending_rise_bounds(n.velocity.y as int);
                }
                if n.frame >= FALLING_FRAMES {
                    RedHatBoyStateMachine::KnockedOut(n)
                } else {
                    RedHatBoyStateMachine::Falling(n)
                }
            },
            (s, _) => s,
        }
    }

    /// One clock tick of the machine.
    pub fn update(self) -> (r: RedHatBoyStateMachine)
        requires
            self.inv(),
        ensures
            r == self.spec_transition(Event::Update),
            r.inv(),
    {
        self.transition(Event::Update)
    }

    /// The animation tag of the current state.
    pub fn frame_name(&self) -> (r: &'static str)
        ensures
            r@ == self.spec_frame_name(),
    {
        match self {
            RedHatBoyStateMachine::Idle(_) => "Idle",
            RedHatBoyStateMachine::Running(_) => "Run",
            RedHatBoyStateMachine::Sliding(_) => "Slide",
            RedHatBoyStateMachine::Jumping(_) => "Jump",
            RedHatBoyStateMachine::Falling(_) => "Dead",
            RedHatBoyStateMachine::KnockedOut(_) => "Dead",
        }
    }

    pub fn knocked_out(&self) -> (r: bool)
        ensures
            r == (self is KnockedOut),
    {
        matches!(self, RedHatBoyStateMachine::KnockedOut(_))
    }
}

/// Gravity is monotone: over one tick of a jumping character the vertical
/// velocity increases by exactly one gravity step while it is below the
/// terminal velocity, stays put once it has reached it, and never exceeds it.
pub proof fn lemma_gravity_monotonic(m: RedHatBoyStateMachine)
    requires
        m.inv(),
        m is Jumping,
    ensures
        ({
            let vy = m.spec_context().velocity.y;
            let next_vy = m.spec_transition(Event::Update).spec_context().velocity.y;
            &&& vy < TERMINAL_VELOCITY ==> next_vy == vy + GRAVITY
            &&& vy >= TERMINAL_VELOCITY ==> next_vy == vy
            &&& next_vy <= TERMINAL_VELOCITY
        }),
{
}

} // verus!
