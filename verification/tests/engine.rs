use dodger::field::Obstacle;
use dodger::game::coalesce;
use dodger::game::GameState;
use dodger::game::InputEvent;
use dodger::game::TickResult;
use dodger::game::Viewport;
use dodger::rng::RandomSource;

fn no_spawn_script(len: usize) -> RandomSource {
    // Every spawn draw misses the sentinel, so no obstacle ever appears.
    RandomSource::scripted(vec![1; len])
}

#[test]
fn new_game_starts_mid_screen() {
    let g = GameState::new(Viewport { w: 20, h: 20 });
    let s = g.snapshot();
    assert_eq!(s.player_column, 10);
    assert_eq!(s.score, 0);
    assert!(s.obstacles.is_empty());
    assert!(g.running);
}

#[test]
fn move_left_five_ticks() {
    let mut g = GameState::new(Viewport { w: 20, h: 20 });
    let mut rng = no_spawn_script(5);
    for _ in 0..5 {
        let r = g.tick(Some(InputEvent::MoveLeft), &mut rng);
        assert_eq!(r, TickResult::Continue);
    }
    assert_eq!(g.player.column, 5);
    assert_eq!(g.score, 5);
    assert!(g.running);
}

#[test]
fn clamp_at_left_edge() {
    let mut g = GameState::new(Viewport { w: 20, h: 20 });
    let mut rng = no_spawn_script(15);
    for _ in 0..15 {
        g.tick(Some(InputEvent::MoveLeft), &mut rng);
        assert!(g.player.column < 20);
    }
    assert_eq!(g.player.column, 0);
}

#[test]
fn clamp_at_right_edge() {
    let mut g = GameState::new(Viewport { w: 20, h: 20 });
    let mut rng = no_spawn_script(15);
    for _ in 0..15 {
        g.tick(Some(InputEvent::MoveRight), &mut rng);
        assert!(g.player.column < 20);
    }
    assert_eq!(g.player.column, 19);
}

#[test]
fn no_input_leaves_player_alone() {
    let mut g = GameState::new(Viewport { w: 20, h: 20 });
    let mut rng = no_spawn_script(3);
    for _ in 0..3 {
        g.tick(None, &mut rng);
    }
    assert_eq!(g.player.column, 10);
    assert_eq!(g.score, 3);
}

#[test]
fn forced_collision_ends_game() {
    // Tick 1 spawns an obstacle at column 10, row 0; the player stays at
    // column 10. The obstacle reaches row 19 on tick 20, which collides.
    let mut g = GameState::new(Viewport { w: 20, h: 20 });
    let mut draws = vec![0, 10];
    draws.extend(vec![1; 40]);
    let mut rng = RandomSource::scripted(draws);
    for _ in 0..19 {
        let r = g.tick(None, &mut rng);
        assert_eq!(r, TickResult::Continue);
    }
    assert_eq!(g.score, 19);
    let s = g.snapshot();
    assert_eq!(s.obstacles, vec![Obstacle { column: 10, row: 18 }]);
    let r = g.tick(None, &mut rng);
    assert_eq!(r, TickResult::GameOver);
    assert!(!g.running);
    // The losing tick is not scored.
    assert_eq!(g.score, 19);
}

#[test]
fn missed_obstacle_is_culled() {
    // The obstacle falls at column 3 while the player stays at column 10:
    // it crosses the bottom row without a collision and is then removed.
    let mut g = GameState::new(Viewport { w: 20, h: 20 });
    let mut draws = vec![0, 3];
    draws.extend(vec![1; 40]);
    let mut rng = RandomSource::scripted(draws);
    for _ in 0..20 {
        let r = g.tick(None, &mut rng);
        assert_eq!(r, TickResult::Continue);
    }
    // After tick 20 the obstacle sits on the bottom row, column 3.
    assert_eq!(
        g.snapshot().obstacles,
        vec![Obstacle { column: 3, row: 19 }]
    );
    let r = g.tick(None, &mut rng);
    assert_eq!(r, TickResult::Continue);
    assert!(g.snapshot().obstacles.is_empty());
    assert!(g.running);
    assert_eq!(g.score, 21);
}

#[test]
fn quit_freezes_state() {
    let mut g = GameState::new(Viewport { w: 20, h: 20 });
    let mut rng = no_spawn_script(3);
    for _ in 0..3 {
        g.tick(None, &mut rng);
    }
    let before = g.snapshot();
    let r = g.tick(Some(InputEvent::Quit), &mut rng);
    assert_eq!(r, TickResult::GameOver);
    assert!(!g.running);
    let after = g.snapshot();
    assert_eq!(after.player_column, before.player_column);
    assert_eq!(after.obstacles, before.obstacles);
    assert_eq!(after.score, before.score);
}

#[test]
fn score_counts_continue_ticks() {
    let mut g = GameState::new(Viewport { w: 20, h: 20 });
    let mut rng = no_spawn_script(10);
    let mut continues: u64 = 0;
    for i in 0..10 {
        let input = if i % 2 == 0 {
            Some(InputEvent::MoveRight)
        } else {
            None
        };
        if g.tick(input, &mut rng) == TickResult::Continue {
            continues += 1;
        }
    }
    assert_eq!(g.score, continues);
    assert_eq!(g.score, 10);
}

#[test]
fn scripted_runs_are_reproducible() {
    let script = || {
        let mut draws = vec![0, 4, 1, 0, 17, 1, 1, 0, 9];
        draws.extend(vec![2; 80]);
        RandomSource::scripted(draws)
    };
    let inputs = |i: usize| match i % 3 {
        0 => Some(InputEvent::MoveLeft),
        1 => None,
        _ => Some(InputEvent::MoveRight),
    };
    let mut a = GameState::new(Viewport { w: 20, h: 20 });
    let mut b = GameState::new(Viewport { w: 20, h: 20 });
    let mut rng_a = script();
    let mut rng_b = script();
    for i in 0..30 {
        if !a.running {
            break;
        }
        let ra = a.tick(inputs(i), &mut rng_a);
        let rb = b.tick(inputs(i), &mut rng_b);
        assert_eq!(ra, rb);
        let sa = a.snapshot();
        let sb = b.snapshot();
        assert_eq!(sa.player_column, sb.player_column);
        assert_eq!(sa.obstacles, sb.obstacles);
        assert_eq!(sa.score, sb.score);
    }
}

#[test]
fn obstacles_stay_inside_viewport() {
    // With the live generator, every observed obstacle lies inside the
    // grid, whatever was drawn.
    let mut g = GameState::new(Viewport { w: 9, h: 5 });
    let mut rng = RandomSource::system();
    for i in 0..300 {
        if !g.running {
            g = GameState::new(Viewport { w: 9, h: 5 });
        }
        let input = if i % 2 == 0 {
            Some(InputEvent::MoveLeft)
        } else {
            Some(InputEvent::MoveRight)
        };
        g.tick(input, &mut rng);
        let s = g.snapshot();
        assert!(s.player_column < 9);
        for o in &s.obstacles {
            assert!(o.column < 9);
            assert!(o.row < 5);
        }
    }
}

#[test]
fn coalesce_prefers_quit() {
    let events = vec![
        InputEvent::MoveLeft,
        InputEvent::Quit,
        InputEvent::MoveRight,
    ];
    assert_eq!(coalesce(&events), Some(InputEvent::Quit));
}

#[test]
fn coalesce_takes_last_direction() {
    let events = vec![
        InputEvent::MoveLeft,
        InputEvent::MoveRight,
        InputEvent::MoveLeft,
    ];
    assert_eq!(coalesce(&events), Some(InputEvent::MoveLeft));
    assert_eq!(
        coalesce(&vec![InputEvent::MoveRight]),
        Some(InputEvent::MoveRight)
    );
}

#[test]
fn coalesce_of_nothing_is_none() {
    assert_eq!(coalesce(&Vec::new()), None);
}
