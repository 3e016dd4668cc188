//! The game state and its tick: input, clamped movement, the obstacle
//! lifecycle, collision, and score, in a fixed order.

use crate::field::advanced;
use crate::field::culled;
use crate::field::hits;
use crate::field::Obstacle;
use crate::field::ObstacleField;
use crate::field::SPAWN_DIE;
use crate::field::SPAWN_HIT;
use crate::rng::RandomSource;
use vstd::prelude::*;

verus! {

/// One input event, as the driver hands it to the engine.
#[derive(Clone, Copy, PartialEq, Eq, Structural, Debug)]
pub enum InputEvent {
    MoveLeft,
    MoveRight,
    Quit,
}

/// What one tick reports back to the driver.
#[derive(Clone, Copy, PartialEq, Eq, Structural, Debug)]
pub enum TickResult {
    Continue,
    GameOver,
}

/// The fixed coordinate space: columns `[0, w)`, rows `[0, h)`. The player
/// sits on the bottom row, `h - 1`.
#[derive(Clone, Copy, PartialEq, Eq, Structural, Debug)]
pub struct Viewport {
    pub w: usize,
    pub h: usize,
}

/// The player: a single entity on the bottom row, known by its column.
#[derive(Clone, Copy, PartialEq, Eq, Structural, Debug)]
pub struct Player {
    pub column: usize,
}

/// The player's column after one tick's input, clamped to `[0, w)`. Absent
/// input, or `Quit`, leaves the column alone; there is no momentum between
/// ticks.
pub open spec fn moved_column(column: usize, w: usize, input: Option<InputEvent>) -> usize
    recommends
        column < w,
{
    match input {
        Option::Some(InputEvent::MoveLeft) => if column > 0 {
            (column - 1) as usize
        } else {
            0usize
        },
        Option::Some(InputEvent::MoveRight) => if column + 1 < w {
            (column + 1) as usize
        } else {
            column
        },
        _ => column,
    }
}

impl Player {
    /// A fresh player, standing mid-screen.
    pub fn new(w: usize) -> (r: Player)
        ensures
            r.column == w / 2,
    {
        Player { column: w / 2 }
    }

    /// Apply one tick's input: move one column left or right, clamped.
    pub fn apply_move(&mut self, w: usize, input: Option<InputEvent>)
        requires
            old(self).column < w,
        ensures
            final(self).column == moved_column(old(self).column, w, input),
    {
        match input {
            Option::Some(InputEvent::MoveLeft) => {
                if self.column > 0 {
                    self.column = self.column - 1;
                }
            },
            Option::Some(InputEvent::MoveRight) => {
                if self.column + 1 < w {
                    self.column = self.column + 1;
                }
            },
            _ => {},
        }
    }
}

/// The mathematical shadow of a `GameState`: the same data with the obstacle
/// collection as a sequence and the score unbounded.
pub struct GameModel {
    pub w: usize,
    pub h: usize,
    pub player: usize,
    pub obstacles: Seq<Obstacle>,
    pub score: nat,
    pub running: bool,
}

impl GameModel {
    /// Everything lies inside the viewport, and the viewport can host a
    /// game: at least one column, and at least two rows so that a fresh
    /// spawn never starts on the player's row.
    pub open spec fn wf(self) -> bool {
        &&& 1 <= self.w
        &&& 2 <= self.h
        &&& self.player < self.w
        &&& forall|i: int|
            0 <= i < self.obstacles.len() ==> (#[trigger] self.obstacles[i]).column < self.w
                && self.obstacles[i].row < self.h
    }
}

/// One tick on the model, with a scripted source: the exact next state,
/// source, and result. This is the function every scripted game run follows.
pub open spec fn tick_scripted(m: GameModel, rng: RandomSource, input: Option<InputEvent>) -> (
    GameModel,
    RandomSource,
    TickResult,
)
    recommends
        m.wf(),
        rng is Scripted,
{
    if input == Option::Some(InputEvent::Quit) {
        (GameModel { running: false, ..m }, rng, TickResult::GameOver)
    } else {
        let column = moved_column(m.player, m.w, input);
        let base = culled(advanced(m.obstacles), m.h);
        let spawn_draw = rng.script_value(0, SPAWN_DIE);
        let obstacles = if spawn_draw == SPAWN_HIT {
            base.push(
                (Obstacle { column: rng.script_step().script_value(0, m.w), row: 0usize }),
            )
        } else {
            base
        };
        let rng2 = if spawn_draw == SPAWN_HIT {
            rng.script_step().script_step()
        } else {
            rng.script_step()
        };
        if hits(obstacles, column, m.h) {
            (
                GameModel { player: column, obstacles, running: false, ..m },
                rng2,
                TickResult::GameOver,
            )
        } else {
            (
                GameModel { player: column, obstacles, score: m.score + 1, ..m },
                rng2,
                TickResult::Continue,
            )
        }
    }
}

/// The whole game for one session: player, obstacle field, score, and the
/// running flag, which falls exactly once, on collision or quit.
pub struct GameState {
    pub viewport: Viewport,
    pub player: Player,
    pub field: ObstacleField,
    pub score: u64,
    pub running: bool,
}

impl View for GameState {
    type V = GameModel;

    open spec fn view(&self) -> GameModel {
        GameModel {
            w: self.viewport.w,
            h: self.viewport.h,
            player: self.player.column,
            obstacles: self.field@,
            score: self.score as nat,
            running: self.running,
        }
    }
}

/// A render-ready projection of one tick's fully updated state.
pub struct Snapshot {
    pub player_column: usize,
    pub obstacles: Vec<Obstacle>,
    pub score: u64,
}

impl GameState {
    pub open spec fn wf(self) -> bool {
        self@.wf()
    }

    /// A fresh session: player mid-screen, no obstacles, score zero,
    /// running.
    pub fn new(viewport: Viewport) -> (r: GameState)
        requires
            1 <= viewport.w,
            2 <= viewport.h,
        ensures
            r.wf(),
            r.viewport == viewport,
            r@ == (GameModel {
                w: viewport.w,
                h: viewport.h,
                player: (viewport.w / 2) as usize,
                obstacles: Seq::<Obstacle>::empty(),
                score: 0nat,
                running: true,
            }),
    {
        GameState {
            viewport,
            player: Player::new(viewport.w),
            field: ObstacleField::new(),
            score: 0,
            running: true,
        }
    }

    /// One simulation step, in fixed order: quit, else move the player
    /// (clamped), advance then cull then maybe spawn the obstacles, test
    /// for a collision on the player's row, and score the survived tick.
    ///
    /// On a scripted source the whole outcome equals `tick_scripted` on the
    /// model; on the system source the spawn column is only known to lie in
    /// the viewport.
    pub fn tick(&mut self, input: Option<InputEvent>, rng: &mut RandomSource) -> (r: TickResult)
        requires
            old(self).wf(),
            old(self).running,
            old(self).score < u64::MAX,
        ensures
            final(self).wf(),
            final(self).viewport == old(self).viewport,
            r is GameOver <==> !final(self).running,
            r is Continue ==> final(self)@.score == old(self)@.score + 1,
            r is GameOver ==> final(self)@.score == old(self)@.score,
            input == Option::Some(InputEvent::Quit) ==> r is GameOver && final(self).player
                == old(self).player && final(self)@.obstacles == old(self)@.obstacles
                && *final(rng) == *old(rng),
            input != Option::Some(InputEvent::Quit) ==> {
                let column = moved_column(old(self).player.column, old(self).viewport.w, input);
                let base = culled(advanced(old(self)@.obstacles), old(self).viewport.h);
                &&& final(self).player.column == column
                &&& final(self)@.obstacles == base || (exists|c: usize|
                    c < old(self).viewport.w && final(self)@.obstacles == base.push(
                        (Obstacle { column: c, row: 0usize }),
                    ))
                &&& (r is GameOver <==> hits(final(self)@.obstacles, column, old(self).viewport.h))
            },
            *old(rng) is System ==> *final(rng) is System,
            *old(rng) is Scripted ==> ({
                let t = tick_scripted(old(self)@, *old(rng), input);
                &&& final(self)@ == t.0
                &&& *final(rng) == t.1
                &&& r == t.2
            }),
    {
        if let Option::Some(InputEvent::Quit) = input {
            self.running = false;
            return TickResult::GameOver;
        }
        self.player.apply_move(self.viewport.w, input);
        self.field.advance();
        self.field.cull(self.viewport.h);
        proof {
            lemma_advanced_wf(old(self)@.obstacles, self.viewport.w, self.viewport.h);
        }
        self.field.spawn_maybe(rng, self.viewport.w);
        if self.collides() {
            self.running = false;
            TickResult::GameOver
        } else {
            self.score = self.score + 1;
            TickResult::Continue
        }
    }

    /// Whether some obstacle stands on the player.
    fn collides(&self) -> (r: bool)
        requires
            self.viewport.h >= 1,
        ensures
            r == hits(self@.obstacles, self.player.column, self.viewport.h),
    {
        let obs = self.field.obstacles();
        let mut i: usize = 0;
        while i < obs.len()
            invariant
                self.viewport.h >= 1,
                obs@ == self@.obstacles,
                i <= obs@.len(),
                forall|j: int|
                    0 <= j < i as int ==> !((#[trigger] obs@[j]).row == self.viewport.h - 1
                        && obs@[j].column == self.player.column),
            decreases obs@.len() - i,
        {
            let o = obs[i];
            if o.row == self.viewport.h - 1 && o.column == self.player.column {
                return true;
            }
            i = i + 1;
        }
        false
    }

    /// A copy of the state for the renderer: the player's column, the live
    /// obstacles, and the score.
    pub fn snapshot(&self) -> (r: Snapshot)
        ensures
            r.player_column == self.player.column,
            r.obstacles@ == self@.obstacles,
            r.score == self.score,
    {
        let obs = self.field.obstacles();
        let mut copy: Vec<Obstacle> = Vec::new();
        let mut i: usize = 0;
        while i < obs.len()
            invariant
                obs@ == self@.obstacles,
                i <= obs@.len(),
                copy@ == obs@.subrange(0, i as int),
            decreases obs@.len() - i,
        {
            copy.push(obs[i]);
            i = i + 1;
            proof {
                assert(copy@ =~= obs@.subrange(0, i as int));
            }
        }
        proof {
            assert(obs@.subrange(0, obs@.len() as int) =~= obs@);
        }
        Snapshot { player_column: self.player.column, obstacles: copy, score: self.score }
    }
}

/// The one event a frame's pending events fold into: a quit anywhere wins;
/// otherwise the last event of the frame; nothing when none are pending.
pub open spec fn coalesced(events: Seq<InputEvent>) -> Option<InputEvent> {
    if exists|i: int| 0 <= i < events.len() && events[i] is Quit {
        Option::Some(InputEvent::Quit)
    } else if events.len() > 0 {
        Option::Some(events.last())
    } else {
        Option::None
    }
}

/// Fold the events drained during one frame into the single input the tick
/// takes: quit beats movement, and of several movements the last wins.
pub fn coalesce(events: &Vec<InputEvent>) -> (r: Option<InputEvent>)
    ensures
        r == coalesced(events@),
{
    let mut i: usize = 0;
    while i < events.len()
        invariant
            i <= events@.len(),
            forall|j: int| 0 <= j < i as int ==> !((#[trigger] events@[j]) is Quit),
        decreases events@.len() - i,
    {
        if let InputEvent::Quit = events[i] {
            return Option::Some(InputEvent::Quit);
        }
        i = i + 1;
    }
    if events.len() > 0 {
        Option::Some(events[events.len() - 1])
    } else {
        Option::None
    }
}

/// After an advance, every obstacle's column is still inside the viewport
/// and its row is at most `h`; the cull that follows restores `row < h`.
pub proof fn lemma_advanced_wf(obs: Seq<Obstacle>, w: usize, h: usize)
    requires
        forall|i: int|
            0 <= i < obs.len() ==> (#[trigger] obs[i]).column < w && obs[i].row < h,
    ensures
        forall|i: int|
            0 <= i < advanced(obs).len() ==> (#[trigger] advanced(obs)[i]).column < w
                && advanced(obs)[i].row <= h,
        forall|i: int|
            0 <= i < culled(advanced(obs), h).len()
                ==> (#[trigger] culled(advanced(obs), h)[i]).column < w
                && culled(advanced(obs), h)[i].row < h,
{
    lemma_culled_wf(advanced(obs), w, h);
}

/// Whatever holds of every element of a sequence holds of every element of
/// its culled form, and culled rows lie below `h`.
pub proof fn lemma_culled_wf(obs: Seq<Obstacle>, w: usize, h: usize)
    requires
        forall|i: int| 0 <= i < obs.len() ==> (#[trigger] obs[i]).column < w,
    ensures
        forall|i: int|
            0 <= i < culled(obs, h).len() ==> (#[trigger] culled(obs, h)[i]).column < w
                && culled(obs, h)[i].row < h,
    decreases obs.len(),
{
    if obs.len() > 0 {
        assert(forall|i: int|
            0 <= i < obs.drop_last().len() ==> (#[trigger] obs.drop_last()[i]).column < w);
        lemma_culled_wf(obs.drop_last(), w, h);
        let rest = culled(obs.drop_last(), h);
        assert forall|i: int|
            0 <= i < culled(obs, h).len() implies (#[trigger] culled(obs, h)[i]).column < w
            && culled(obs, h)[i].row < h by {
            if obs.last().row < h {
                assert(culled(obs, h) == rest.push(obs.last()));
                if i < rest.len() {
                    assert(culled(obs, h)[i] == rest[i]);
                } else {
                    assert(culled(obs, h)[i] == obs.last());
                    assert(obs.last() == obs[obs.len() - 1]);
                }
            } else {
                assert(culled(obs, h) == rest);
            }
        }
    }
}

} // verus!
