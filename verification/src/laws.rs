//! Whole-run laws of the engine, stated and proved over the model: a game
//! driven by a scripted source follows `tick_scripted` tick for tick, so
//! what holds of every `tick_scripted` run holds of every scripted game.

use crate::game::tick_scripted;
use crate::game::GameModel;
use crate::game::InputEvent;
use crate::game::TickResult;
use crate::rng::RandomSource;
use vstd::prelude::*;

verus! {

/// A whole scripted run: tick through the inputs, in order, stopping as
/// soon as the game is no longer running. Yields the final model, the
/// final source, and the per-tick results.
pub open spec fn run_scripted(
    m: GameModel,
    rng: RandomSource,
    inputs: Seq<Option<InputEvent>>,
) -> (GameModel, RandomSource, Seq<TickResult>)
    decreases inputs.len(),
{
    if inputs.len() == 0 || !m.running {
        (m, rng, Seq::empty())
    } else {
        let t = tick_scripted(m, rng, inputs.first());
        let rest = run_scripted(t.0, t.1, inputs.drop_first());
        (rest.0, rest.1, Seq::empty().push(t.2) + rest.2)
    }
}

/// How many ticks of a run reported `Continue`.
pub open spec fn continue_count(results: Seq<TickResult>) -> nat
    decreases results.len(),
{
    if results.len() == 0 {
        0nat
    } else {
        (if results.first() is Continue {
            1nat
        } else {
            0nat
        }) + continue_count(results.drop_first())
    }
}

/// One tick keeps the game well formed and never touches the viewport: the
/// player's column stays in `[0, w)` and every obstacle stays inside the
/// grid, whatever the input and the script.
pub proof fn lemma_tick_scripted_wf(m: GameModel, rng: RandomSource, input: Option<InputEvent>)
    requires
        m.wf(),
    ensures
        tick_scripted(m, rng, input).0.wf(),
        tick_scripted(m, rng, input).0.w == m.w,
        tick_scripted(m, rng, input).0.h == m.h,
{
    if input != Option::Some(InputEvent::Quit) {
        crate::game::lemma_advanced_wf(m.obstacles, m.w, m.h);
    }
}

/// A whole run keeps the game well formed and never touches the viewport,
/// whatever the input sequence: clamping and culling hold at every
/// observation point.
pub proof fn lemma_run_scripted_wf(
    m: GameModel,
    rng: RandomSource,
    inputs: Seq<Option<InputEvent>>,
)
    requires
        m.wf(),
    ensures
        run_scripted(m, rng, inputs).0.wf(),
        run_scripted(m, rng, inputs).0.w == m.w,
        run_scripted(m, rng, inputs).0.h == m.h,
    decreases inputs.len(),
{
    if inputs.len() > 0 && m.running {
        let t = tick_scripted(m, rng, inputs.first());
        lemma_tick_scripted_wf(m, rng, inputs.first());
        lemma_run_scripted_wf(t.0, t.1, inputs.drop_first());
    }
}

/// The score is exactly the starting score plus the number of ticks that
/// reported `Continue`; in particular it never decreases, and a tick that
/// reports `GameOver` leaves it alone.
pub proof fn lemma_run_scripted_score(
    m: GameModel,
    rng: RandomSource,
    inputs: Seq<Option<InputEvent>>,
)
    ensures
        run_scripted(m, rng, inputs).0.score == m.score + continue_count(
            run_scripted(m, rng, inputs).2,
        ),
        run_scripted(m, rng, inputs).0.score >= m.score,
    decreases inputs.len(),
{
    if inputs.len() > 0 && m.running {
        let t = tick_scripted(m, rng, inputs.first());
        let rest = run_scripted(t.0, t.1, inputs.drop_first());
        lemma_run_scripted_score(t.0, t.1, inputs.drop_first());
        let results = Seq::empty().push(t.2) + rest.2;
        assert(results.first() == t.2);
        assert(results.drop_first() =~= rest.2);
    }
}

/// A game that is no longer running is frozen: a run over any further
/// inputs changes nothing and reports nothing.
pub proof fn lemma_terminal_frozen(
    m: GameModel,
    rng: RandomSource,
    inputs: Seq<Option<InputEvent>>,
)
    requires
        !m.running,
    ensures
        run_scripted(m, rng, inputs) == (m, rng, Seq::<TickResult>::empty()),
{
}

} // verus!
