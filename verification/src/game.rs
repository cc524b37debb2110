use vstd::prelude::*;

use crate::rect::Rect;
use crate::redhatboy::RedHatBoy;
use crate::redhatboy_state::{Event, HEIGHT};
use crate::renderer::DrawCommand;
use crate::walk::{is_reset, is_walking_tick, Walk};

verus! {

/// A snapshot of the player's input, read at the start of a simulation
/// tick: the three game keys, and the one-shot "new game" signal that the
/// surrounding layer polls from the restart affordance.
#[derive(Clone, Copy, PartialEq, Eq, Structural, Debug)]
pub struct KeySnapshot {
    pub arrow_right: bool,
    pub arrow_down: bool,
    pub space: bool,
    pub new_game_pressed: bool,
}

/// Side effects a tick requests from the surrounding layer: playing the
/// jump sound (fire-and-forget; a failure is logged, never propagated), and
/// showing or hiding the restart affordance.
#[derive(Clone, Copy, PartialEq, Eq, Structural, Debug)]
pub struct TickEffects {
    pub play_jump_sound: bool,
    pub show_restart_ui: bool,
    pub hide_restart_ui: bool,
}

impl TickEffects {
    pub open spec fn spec_none() -> TickEffects {
        TickEffects { play_jump_sound: false, show_restart_ui: false, hide_restart_ui: false }
    }

    pub fn none() -> (r: TickEffects)
        ensures
            r == TickEffects::spec_none(),
    {
        TickEffects { play_jump_sound: false, show_restart_ui: false, hide_restart_ui: false }
    }
}

/// The outer game-flow state machine: waiting for the first input, running
/// the full simulation, or frozen after a knock-out. Exactly one state is
/// live; each owns the world.
#[derive(Clone, Debug)]
pub enum WalkTheDogStateMachine {
    Ready(Walk),
    Walking(Walk),
    GameOver(Walk),
}

/// What one game-flow tick does, and which effects it requests.
///
/// Ready advances the character's idle animation and, on "move right",
/// issues the run and starts walking. Walking runs the full world tick;
/// a knocked-out character freezes the game and requests the restart
/// affordance. GameOver waits for the one-shot restart signal and then
/// starts a fresh round, hiding the affordance.
pub open spec fn spec_update_outcome(
    m: WalkTheDogStateMachine,
    key: KeySnapshot,
    r: WalkTheDogStateMachine,
    fx: TickEffects,
) -> bool {
    match m {
        WalkTheDogStateMachine::Ready(walk) => {
            let updated = RedHatBoy {
                state_machine: walk.boy.state_machine.spec_transition(Event::Update),
                sprite_sheet: walk.boy.sprite_sheet,
            };
            let after = if key.arrow_right {
                RedHatBoy {
                    state_machine: updated.state_machine.spec_transition(Event::Run),
                    sprite_sheet: updated.sprite_sheet,
                }
            } else {
                updated
            };
            let next_walk = Walk {
                boy: after,
                backgrounds: walk.backgrounds,
                obstacles: walk.obstacles,
                obstacle_sheet: walk.obstacle_sheet,
                stone_width: walk.stone_width,
                stone_height: walk.stone_height,
                timeline: walk.timeline,
            };
            &&& fx == TickEffects::spec_none()
            &&& if key.arrow_right {
                r == WalkTheDogStateMachine::Walking(next_walk)
            } else {
                r == WalkTheDogStateMachine::Ready(next_walk)
            }
        },
        WalkTheDogStateMachine::Walking(walk) => {
            &&& fx.play_jump_sound == (key.space && walk.boy.state_machine is Running)
            &&& !fx.hide_restart_ui
            &&& match r {
                WalkTheDogStateMachine::Walking(w) => {
                    &&& is_walking_tick(walk, w, key.space, key.arrow_down)
                    &&& !(w.boy.state_machine is KnockedOut)
                    &&& !fx.show_restart_ui
                },
                WalkTheDogStateMachine::GameOver(w) => {
                    &&& is_walking_tick(walk, w, key.space, key.arrow_down)
                    &&& w.boy.state_machine is KnockedOut
                    &&& fx.show_restart_ui
                },
                WalkTheDogStateMachine::Ready(_) => false,
            }
        },
        WalkTheDogStateMachine::GameOver(walk) => {
            if key.new_game_pressed {
                &&& (r matches WalkTheDogStateMachine::Ready(w) && is_reset(walk, w))
                &&& fx == (TickEffects {
                    play_jump_sound: false,
                    show_restart_ui: false,
                    hide_restart_ui: true,
                })
            } else {
                &&& r == m
                &&& fx == TickEffects::spec_none()
            }
        },
    }
}

impl WalkTheDogStateMachine {
    /// The world the current state owns.
    pub open spec fn spec_walk(self) -> Walk {
        match self {
            WalkTheDogStateMachine::Ready(walk) => walk,
            WalkTheDogStateMachine::Walking(walk) => walk,
            WalkTheDogStateMachine::GameOver(walk) => walk,
        }
    }

    pub open spec fn wf(self) -> bool {
        self.spec_walk().wf()
    }

    pub fn new(walk: Walk) -> (r: WalkTheDogStateMachine)
        ensures
            r == WalkTheDogStateMachine::Ready(walk),
    {
        WalkTheDogStateMachine::Ready(walk)
    }

    /// One game-flow tick.
    pub fn update(self, keystate: &KeySnapshot) -> (r: (WalkTheDogStateMachine, TickEffects))
        requires
            self.wf(),
        ensures
            r.0.wf(),
            spec_update_outcome(self, *keystate, r.0, r.1),
    {
        match self {
            WalkTheDogStateMachine::Ready(mut walk) => {
                walk.boy.update();
                if keystate.arrow_right {
                    walk.boy.run_right();
                    (WalkTheDogStateMachine::Walking(walk), TickEffects::none())
                } else {
                    (WalkTheDogStateMachine::Ready(walk), TickEffects::none())
                }
            },
            WalkTheDogStateMachine::Walking(walk) => {
                let play_jump_sound = keystate.space && matches!(
                    walk.boy.state_machine,
                    crate::redhatboy_state::RedHatBoyStateMachine::Running(_)
                );
                let next_walk = walk.update_walking(keystate.space, keystate.arrow_down);
                if next_walk.knocked_out() {
                    (
                        WalkTheDogStateMachine::GameOver(next_walk),
                        TickEffects {
                            play_jump_sound,
                            show_restart_ui: true,
                            hide_restart_ui: false,
                        },
                    )
                } else {
                    (
                        WalkTheDogStateMachine::Walking(next_walk),
                        TickEffects {
                            play_jump_sound,
                            show_restart_ui: false,
                            hide_restart_ui: false,
                        },
                    )
                }
            },
            WalkTheDogStateMachine::GameOver(walk) => {
                if keystate.new_game_pressed {
                    (
                        WalkTheDogStateMachine::Ready(Walk::reset(walk)),
                        TickEffects {
                            play_jump_sound: false,
                            show_restart_ui: false,
                            hide_restart_ui: true,
                        },
                    )
                } else {
                    (WalkTheDogStateMachine::GameOver(walk), TickEffects::none())
                }
            },
        }
    }

    /// Drawing is state-agnostic: every state renders its world.
    pub fn draw(&self) -> (r: Vec<DrawCommand>)
        requires
            self.wf(),
        ensures
            r@ == self.spec_walk().spec_draw(),
    {
        match self {
            WalkTheDogStateMachine::Ready(walk) => walk.draw(),
            WalkTheDogStateMachine::Walking(walk) => walk.draw(),
            WalkTheDogStateMachine::GameOver(walk) => walk.draw(),
        }
    }
}

/// The game entry point: nothing before initialization, the game-flow
/// machine afterwards.
#[derive(Clone, Debug)]
pub struct WalkTheDog {
    pub machine: Option<WalkTheDogStateMachine>,
}

impl WalkTheDog {
    pub open spec fn wf(self) -> bool {
        self.machine matches Some(m) ==> m.wf()
    }

    pub fn new() -> (r: WalkTheDog)
        ensures
            r.machine is None,
            r.wf(),
    {
        WalkTheDog { machine: None }
    }

    /// Adopts a freshly built world. Initializing an already-initialized
    /// game is a caller error, reported as a value: the game is handed back
    /// unchanged.
    pub fn initialize_with(self, walk: Walk) -> (r: Result<WalkTheDog, WalkTheDog>)
        requires
            walk.wf(),
        ensures
            self.machine is None ==> (r matches Ok(g) && g.machine == Some(
                WalkTheDogStateMachine::Ready(walk),
            ) && g.wf()),
            self.machine is Some ==> (r matches Err(g) && g == self),
    {
        match self.machine {
            None => Ok(
                WalkTheDog { machine: Some(WalkTheDogStateMachine::new(walk)) },
            ),
            Some(_) => Err(self),
        }
    }

    /// One tick: before initialization a no-op, afterwards one game-flow
    /// update.
    pub fn update(&mut self, keystate: &KeySnapshot) -> (r: TickEffects)
        requires
            old(self).wf(),
        ensures
            final(self).wf(),
            old(self).machine is None ==> *final(self) == *old(self) && r
                == TickEffects::spec_none(),
            old(self).machine matches Some(m) ==> (final(self).machine matches Some(m2)
                && spec_update_outcome(m, *keystate, m2, r)),
    {
        let machine = self.machine.take();
        match machine {
            Some(m) => {
                let (next, effects) = m.update(keystate);
                self.machine = Some(next);
                effects
            },
            None => TickEffects::none(),
        }
    }

    /// The frame's rendering: clear the stage, then draw the current world,
    /// if any.
    pub fn draw(&self) -> (r: Vec<DrawCommand>)
        requires
            self.wf(),
        ensures
            r@.len() >= 1,
            r@[0] == (DrawCommand::Clear {
                rect: Rect {
                    position: crate::point::Point { x: 0, y: 0 },
                    width: 600,
                    height: HEIGHT,
                },
            }),
            match self.machine {
                Some(m) => r@.skip(1) == m.spec_walk().spec_draw(),
                None => r@.len() == 1,
            },
    {
        let mut r: Vec<DrawCommand> = Vec::new();
        r.push(
            DrawCommand::Clear { rect: Rect::new_from_x_y(0, 0, 600, HEIGHT) },
        );
        match &self.machine {
            Some(m) => {
                let mut commands = m.draw();
                r.append(&mut commands);
                proof {
                    assert(r@.skip(1) =~= self.machine->Some_0.spec_walk().spec_draw());
                }
            },
            None => {
            },
        }
        r
    }
}

} // verus!
