//! The set of falling obstacles: spawned at the top row, advanced one row
//! per tick, and culled once they leave the bottom of the viewport.

use crate::rng::RandomSource;
use vstd::prelude::*;

verus! {

/// One falling obstacle. `column` lies in `[0, w)`; `row` grows by one per
/// tick and reaches `h` only transiently, between an advance and the cull
/// that follows it.
#[derive(Clone, Copy, PartialEq, Eq, Structural, Debug)]
pub struct Obstacle {
    pub column: usize,
    pub row: usize,
}

/// A spawn happens on the tick whose spawn draw, taken from `[0, SPAWN_DIE)`,
/// equals `SPAWN_HIT`: a fixed one-in-five chance per tick.
pub const SPAWN_DIE: usize = 5;

/// The value of the spawn draw that triggers a spawn.
pub const SPAWN_HIT: usize = 0;

/// Every obstacle moved down one row.
pub open spec fn advanced(obs: Seq<Obstacle>) -> Seq<Obstacle> {
    Seq::new(obs.len(), |i: int| (Obstacle { column: obs[i].column, row: (obs[i].row + 1) as usize }))
}

/// The obstacles still on screen: those with `row < h`, in their old order.
pub open spec fn culled(obs: Seq<Obstacle>, h: usize) -> Seq<Obstacle>
    decreases obs.len(),
{
    if obs.len() == 0 {
        Seq::empty()
    } else {
        let rest = culled(obs.drop_last(), h);
        if obs.last().row < h {
            rest.push(obs.last())
        } else {
            rest
        }
    }
}

/// Whether some obstacle stands on the player's row (`h - 1`) in the given
/// column: the collision test.
pub open spec fn hits(obs: Seq<Obstacle>, column: usize, h: usize) -> bool {
    exists|i: int| 0 <= i < obs.len() && obs[i].row == h - 1 && obs[i].column == column
}

/// The obstacles that are currently alive. Viewed as the sequence of its
/// obstacles, in insertion order.
pub struct ObstacleField {
    obstacles: Vec<Obstacle>,
}

impl View for ObstacleField {
    type V = Seq<Obstacle>;

    closed spec fn view(&self) -> Seq<Obstacle> {
        self.obstacles@
    }
}

impl ObstacleField {
    /// Every obstacle lies inside the `w` by `h` viewport.
    pub open spec fn wf(self, w: usize, h: usize) -> bool {
        forall|i: int|
            0 <= i < self@.len() ==> self@[i].column < w && self@[i].row < h
    }

    pub fn new() -> (r: ObstacleField)
        ensures
            r@ == Seq::<Obstacle>::empty(),
    {
        ObstacleField { obstacles: Vec::new() }
    }

    /// Read-only view of the live obstacles, for rendering and tests.
    pub fn obstacles(&self) -> (r: &Vec<Obstacle>)
        ensures
            r@ == self@,
    {
        &self.obstacles
    }

    /// Move every obstacle down one row.
    pub fn advance(&mut self)
        requires
            forall|i: int| 0 <= i < old(self)@.len() ==> (#[trigger] old(self)@[i]).row < usize::MAX,
        ensures
            final(self)@ == advanced(old(self)@),
    {
        let mut out: Vec<Obstacle> = Vec::new();
        let mut i: usize = 0;
        while i < self.obstacles.len()
            invariant
                self.obstacles@ == old(self)@,
                i <= old(self)@.len(),
                forall|j: int| 0 <= j < old(self)@.len() ==> (#[trigger] old(self)@[j]).row < usize::MAX,
                out@.len() == i as int,
                forall|j: int|
                    0 <= j < i as int ==> (#[trigger] out@[j]) == (Obstacle {
                        column: old(self)@[j].column,
                        row: (old(self)@[j].row + 1) as usize,
                    }),
            decreases old(self)@.len() - i,
        {
            let o = self.obstacles[i];
            out.push(Obstacle { column: o.column, row: o.row + 1 });
            i = i + 1;
        }
        self.obstacles = out;
        proof {
            assert(self.obstacles@ =~= advanced(old(self)@));
        }
    }

    /// Drop every obstacle whose row has reached `h`.
    pub fn cull(&mut self, h: usize)
        ensures
            final(self)@ == culled(old(self)@, h),
    {
        let mut out: Vec<Obstacle> = Vec::new();
        let mut i: usize = 0;
        while i < self.obstacles.len()
            invariant
                self.obstacles@ == old(self)@,
                i <= old(self)@.len(),
                out@ == culled(old(self)@.subrange(0, i as int), h),
            decreases old(self)@.len() - i,
        {
            let o = self.obstacles[i];
            proof {
                assert(old(self)@.subrange(0, i as int + 1).drop_last() =~= old(self)@.subrange(
                    0,
                    i as int,
                ));
                assert(old(self)@.subrange(0, i as int + 1).last() == old(self)@[i as int]);
            }
            if o.row < h {
                out.push(o);
            }
            i = i + 1;
        }
        proof {
            assert(old(self)@.subrange(0, old(self)@.len() as int) =~= old(self)@);
        }
        self.obstacles = out;
    }

    /// With a one-in-five chance, spawn one obstacle at the top row in a
    /// random column of `[0, w)`; otherwise leave the field alone. On a
    /// scripted source the outcome is exactly determined by the script.
    pub fn spawn_maybe(&mut self, rng: &mut RandomSource, w: usize)
        requires
            w >= 1,
        ensures
            final(self)@ == old(self)@ || (exists|c: usize|
                c < w && final(self)@ == old(self)@.push((Obstacle { column: c, row: 0usize }))),
            *old(rng) is System ==> *final(rng) is System,
            *old(rng) is Scripted ==> ({
                let d = old(rng).script_value(0, SPAWN_DIE);
                if d == SPAWN_HIT {
                    let c = old(rng).script_step().script_value(0, w);
                    &&& final(self)@ == old(self)@.push((Obstacle { column: c, row: 0usize }))
                    &&& *final(rng) == old(rng).script_step().script_step()
                } else {
                    &&& final(self)@ == old(self)@
                    &&& *final(rng) == old(rng).script_step()
                }
            }),
    {
        let d = rng.next_in_range(0, SPAWN_DIE);
        if d == SPAWN_HIT {
            let c = rng.next_in_range(0, w);
            self.obstacles.push(Obstacle { column: c, row: 0 });
            proof {
                assert(c < w && self.obstacles@ == old(self)@.push((Obstacle {
                    column: c,
                    row: 0usize,
                })));
            }
        }
    }
}

} // verus!
