//! The state machine of a mob: everything about a player that is a
//! decision and not a quantity. Whoever integrates position and velocity
//! runs this machine beside them, one step after the other each frame:
//! [`Player::steer`], [`Player::cool_down`], [`Player::touch`] for every
//! obstacle, and [`Player::animate`].

use vstd::prelude::*;
use crate::collision::Side;
use crate::keys::{Key, Keys, Steering};

verus! {

/// The clip that a mob shows.
#[derive(Clone, Copy, Debug, PartialEq, Eq, Structural)]
pub enum Animations {
    Stand,
    Walk1,
    Walk2,
    Walk3,
    Jump,
    /// No clip of its own: drawn like standing.
    Unset,
}

impl Animations {
    /// The clip that a request for `self` puts on show: a jump and the first
    /// walking frame are shown as they are, anything else as standing.
    pub open spec fn shown(self) -> Animations {
        match self {
            Animations::Jump => Animations::Jump,
            Animations::Walk1 => Animations::Walk1,
            _ => Animations::Stand,
        }
    }

    /// Whether a texture exists for the clip. The second and third walking
    /// frames have none, and must never be on show.
    pub open spec fn drawable(self) -> bool {
        self != Animations::Walk2 && self != Animations::Walk3
    }

    /// The clip that follows `self` in the walk cycle, for the clips that
    /// are part of it.
    pub open spec fn walk_next(self) -> Option<Animations> {
        match self {
            Animations::Stand => Some(Animations::Walk1),
            Animations::Walk1 => Some(Animations::Stand),
            _ => None,
        }
    }

    pub fn is_jump(&self) -> (jump: bool)
        ensures
            jump == (*self == Animations::Jump),
    {
        match self {
            Animations::Jump => true,
            _ => false,
        }
    }

    /// Whether the renderer has a texture for the clip.
    pub fn has_texture(&self) -> (has: bool)
        ensures
            has == self.drawable(),
    {
        match self {
            Animations::Walk2 | Animations::Walk3 => false,
            _ => true,
        }
    }
}

/// What a mob does about its wall jump while it touches a wall.
#[derive(Clone, Copy, Debug, PartialEq, Eq, Structural)]
pub enum WallJump {
    /// Jump away from the wall: the jump key is used up and the wall jump
    /// becomes active with a fresh cooldown.
    Launch,
    /// The wall jump stays active and its cooldown drains faster.
    Drain,
    /// The wall jump ends at once.
    Release,
}

impl WallJump {
    /// The decision for a mob at a wall: `jump` says whether the jump key is
    /// held, `active` whether a wall jump is under way.
    pub open spec fn decide(jump: bool, active: bool) -> WallJump {
        if jump && !active {
            WallJump::Launch
        } else if jump {
            WallJump::Drain
        } else {
            WallJump::Release
        }
    }

    /// Decides what a mob at a wall does about its wall jump.
    pub fn at_wall(jump: bool, active: bool) -> (step: WallJump)
        ensures
            step == WallJump::decide(jump, active),
    {
        if jump && !active {
            WallJump::Launch
        } else if jump {
            WallJump::Drain
        } else {
            WallJump::Release
        }
    }
}

/// The look direction of a mob that looks to the right.
pub const LOOK_RIGHT: i8 = 1;

/// The look direction of a mob that looks to the left.
pub const LOOK_LEFT: i8 = -1;

/// The part of a mob's state that is common to all mobs.
#[derive(Clone, Copy, Debug, PartialEq, Eq, Structural)]
pub struct MobState {
    /// Which way the mob looks: [`LOOK_RIGHT`] or [`LOOK_LEFT`].
    pub look_dir: i8,
    /// Whether a wall jump is under way.
    pub walljump: bool,
}

impl MobState {
    /// A mob that looks to the right and is in no wall jump.
    pub open spec fn fresh() -> MobState {
        MobState { look_dir: LOOK_RIGHT, walljump: false }
    }

    /// The mob looks one way or the other.
    pub open spec fn wf(self) -> bool {
        self.look_dir == LOOK_RIGHT || self.look_dir == LOOK_LEFT
    }

    pub fn new() -> (state: MobState)
        ensures
            state == MobState::fresh(),
            state.wf(),
    {
        MobState { look_dir: LOOK_RIGHT, walljump: false }
    }
}

/// What the keys make a player do at the start of a frame.
#[derive(Clone, Copy, Debug, PartialEq, Eq, Structural)]
pub struct Controls {
    /// The player leaves the ground with the launch velocity.
    pub launch: bool,
    /// The way the player accelerates.
    pub steering: Steering,
}

/// The state of a player apart from position, velocity and timers.
#[derive(Clone, Copy, Debug, PartialEq, Eq, Structural)]
pub struct Player {
    /// Whether the player stands on an obstacle.
    pub on_ground: bool,
    /// The clip on show.
    pub texture: Animations,
    pub state: MobState,
}

impl Player {
    /// The clip on show has a texture and the player looks one way or the
    /// other.
    pub open spec fn wf(self) -> bool {
        self.texture.drawable() && self.state.wf()
    }

    /// A player in the air, standing still and looking to the right.
    pub open spec fn fresh() -> Player {
        Player { on_ground: false, texture: Animations::Stand, state: MobState::fresh() }
    }

    /// The player after the keys are read: a jump from the ground takes the
    /// player off it, and steering turns the player's head.
    pub open spec fn steered(self, keys: Keys) -> Player {
        Player {
            on_ground: self.on_ground && !keys.space,
            state: MobState {
                look_dir: match keys.steers() {
                    Steering::Right => LOOK_RIGHT,
                    Steering::Left => LOOK_LEFT,
                    Steering::Coast => self.state.look_dir,
                },
                ..self.state
            },
            ..self
        }
    }

    /// The player after the wall-jump cooldown has run for a frame:
    /// `expired` says whether it has run out.
    pub open spec fn cooled(self, expired: bool) -> Player {
        Player {
            state: MobState { walljump: self.state.walljump && !expired, ..self.state },
            ..self
        }
    }

    /// What the player does about its wall jump on touching `side` of an
    /// obstacle: nothing unless the side is a wall.
    pub open spec fn wall_step(self, side: Side, keys: Keys) -> Option<WallJump> {
        match side {
            Side::East | Side::West => Some(WallJump::decide(keys.space, self.state.walljump)),
            _ => None,
        }
    }

    /// The player after touching `side` of an obstacle. The top of an
    /// obstacle is ground. At a wall the wall jump is under way afterwards
    /// exactly if the jump key is held. From below nothing changes.
    pub open spec fn touched(self, side: Side, keys: Keys) -> Player {
        match side {
            Side::North => Player { on_ground: true, ..self },
            Side::East | Side::West => Player {
                state: MobState { walljump: keys.space, ..self.state },
                ..self
            },
            Side::South => self,
        }
    }

    /// The keys after the player touched `side` of an obstacle: a launch
    /// off a wall uses up the jump key.
    pub open spec fn keys_after_touch(self, side: Side, keys: Keys) -> Keys {
        if self.wall_step(side, keys) == Some(WallJump::Launch) {
            keys.with(Key::Space, false)
        } else {
            keys
        }
    }

    /// Whether the walk cycle moves on: the clip on show has run out, the
    /// player is grounded and moving, and the clip is part of the cycle.
    pub open spec fn walks_on(self, expired: bool, grounded: bool, moving: bool) -> bool {
        expired && grounded && moving && self.texture.walk_next() is Some
    }

    /// The player after the animation step.
    pub open spec fn animated(self, expired: bool, grounded: bool, moving: bool) -> Player {
        if self.walks_on(expired, grounded, moving) {
            Player { texture: self.texture.walk_next().unwrap(), ..self }
        } else {
            self
        }
    }

    pub fn new() -> (player: Player)
        ensures
            player == Player::fresh(),
            player.wf(),
    {
        Player { on_ground: false, texture: Animations::Stand, state: MobState::new() }
    }

    /// Puts on show the clip that a request for `ani` calls for.
    pub fn play_animation(&mut self, ani: Animations)
        ensures
            *final(self) == (Player { texture: ani.shown(), ..*old(self) }),
            old(self).state.wf() ==> final(self).wf(),
    {
        self.texture = match ani {
            Animations::Jump => Animations::Jump,
            Animations::Walk1 => Animations::Walk1,
            _ => Animations::Stand,
        };
    }

    /// The first step of a frame: reads the keys. The result tells whether
    /// the player launches into a jump and which way it accelerates; how
    /// hard it accelerates goes by `on_ground` after this step, so that a
    /// player who launches is pushed as one in the air.
    pub fn steer(&mut self, keys: &Keys) -> (controls: Controls)
        ensures
            controls.launch == (keys.space && old(self).on_ground),
            controls.steering == keys.steers(),
            *final(self) == old(self).steered(*keys),
            old(self).wf() ==> final(self).wf(),
    {
        let launch = keys.jumps(self.on_ground);
        if launch {
            self.on_ground = false;
        }
        let steering = keys.steering();
        match steering {
            Steering::Right => {
                self.state.look_dir = LOOK_RIGHT;
            },
            Steering::Left => {
                self.state.look_dir = LOOK_LEFT;
            },
            Steering::Coast => {},
        }
        Controls { launch, steering }
    }

    /// The cooldown step: `expired` says whether the cooldown of the wall
    /// jump has reached zero. An expired wall jump ends; the step never
    /// starts one.
    pub fn cool_down(&mut self, expired: bool)
        ensures
            *final(self) == old(self).cooled(expired),
            final(self).state.walljump ==> old(self).state.walljump && !expired,
            old(self).wf() ==> final(self).wf(),
    {
        if self.state.walljump && expired {
            self.state.walljump = false;
        }
    }

    /// The collision step for one obstacle of which the player crosses
    /// `side`. The result is the wall-jump decision to carry out, if the
    /// side is a wall.
    pub fn touch(&mut self, side: Side, keys: &mut Keys) -> (step: Option<WallJump>)
        ensures
            step == old(self).wall_step(side, *old(keys)),
            *final(self) == old(self).touched(side, *old(keys)),
            *final(keys) == old(self).keys_after_touch(side, *old(keys)),
            old(self).wf() ==> final(self).wf(),
    {
        match side {
            Side::North => {
                self.on_ground = true;
                None
            },
            Side::East | Side::West => {
                let step = WallJump::at_wall(keys.space, self.state.walljump);
                match step {
                    WallJump::Launch => {
                        keys.btn_release(Key::Space);
                        self.state.walljump = true;
                    },
                    WallJump::Drain => {},
                    WallJump::Release => {
                        self.state.walljump = false;
                    },
                }
                Some(step)
            },
            Side::South => None,
        }
    }

    /// The animation step: `expired` says whether the clip on show has run
    /// out, `grounded` whether the player does not move vertically, `moving`
    /// whether it moves sideways. The result tells whether a new clip went
    /// on show, whose time starts to run.
    pub fn animate(&mut self, expired: bool, grounded: bool, moving: bool) -> (restart: bool)
        ensures
            restart == old(self).walks_on(expired, grounded, moving),
            *final(self) == old(self).animated(expired, grounded, moving),
            old(self).wf() ==> final(self).wf(),
    {
        if expired && grounded && moving {
            match self.texture {
                Animations::Stand => {
                    self.play_animation(Animations::Walk1);
                    true
                },
                Animations::Walk1 => {
                    self.play_animation(Animations::Stand);
                    true
                },
                _ => false,
            }
        } else {
            false
        }
    }
}

/// The cooldown never starts a wall jump, and a wall jump whose cooldown
/// has expired is over.
pub proof fn lemma_cooldown_only_ends(player: Player, expired: bool)
    ensures
        player.cooled(expired).state.walljump ==> player.state.walljump,
        expired ==> !player.cooled(expired).state.walljump,
        !expired ==> player.cooled(expired) == player,
{
}

/// One press of the jump key launches once: after a launch off a wall the
/// key is used up, so that the next wall, in the same frame or a later one,
/// ends the wall jump.
pub proof fn lemma_launch_once(player: Player, side: Side, keys: Keys, next: Side)
    requires
        player.wall_step(side, keys) == Some(WallJump::Launch),
        next == Side::East || next == Side::West,
    ensures
        !player.keys_after_touch(side, keys).space,
        player.touched(side, keys).state.walljump,
        player.touched(side, keys).wall_step(next, player.keys_after_touch(side, keys)) == Some(
            WallJump::Release,
        ),
{
}

/// A player at rest stays at rest: standing on an obstacle with no key
/// held, in no wall jump and not moving, the player is in the same state
/// after a whole frame in which it touches the top of obstacles only.
pub proof fn lemma_rest_is_steady(player: Player, expired: bool, clip_expired: bool)
    requires
        player.on_ground,
        !player.state.walljump,
    ensures
        player.steered(Keys::idle()).cooled(expired).touched(Side::North, Keys::idle()).animated(
            clip_expired,
            true,
            false,
        ) == player,
        player.steered(Keys::idle()).cooled(expired).keys_after_touch(Side::North, Keys::idle())
            == Keys::idle(),
{
}

} // verus!
