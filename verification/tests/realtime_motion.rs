//! Movement paths, step durations and fades.

use forgotten_core::geom::{Coord, Direction};
use forgotten_core::realtime::{
    ordinal_duration_from_cardinal_duration, FadeProgress, FadeState, Movement, PathState, Repeat,
};

#[test]
fn ordinal_duration_scales_by_square_root_of_two() {
    // 100 ms cardinal steps give roughly 141 ms diagonal steps
    assert_eq!(ordinal_duration_from_cardinal_duration(100_000), 141_421);
    assert_eq!(ordinal_duration_from_cardinal_duration(25_000), 35_355);
    assert_eq!(ordinal_duration_from_cardinal_duration(0), 0);
}

#[test]
fn knockback_path_steps_exactly_three_times() {
    let mut state = Movement {
        path: Coord::new(1, 0),
        repeat: Repeat::Steps(3),
        cardinal_step_duration: 50_000,
    }
    .build();
    for _ in 0..3 {
        let (event, delay) = state.tick();
        assert_eq!(event, Some(Direction::East));
        assert_eq!(delay, 50_000);
    }
    let (event, _) = state.tick();
    assert_eq!(event, None);
}

#[test]
fn projectile_push_back_uses_hundred_millisecond_steps() {
    let mut state = Movement {
        path: Coord::new(0, 1),
        repeat: Repeat::Steps(3),
        cardinal_step_duration: 100_000,
    }
    .build();
    let (event, delay) = state.tick();
    assert_eq!(event, Some(Direction::South));
    assert_eq!(delay, 100_000);
}

#[test]
fn single_traversal_walks_the_line_once() {
    let mut state = Movement {
        path: Coord::new(3, 1),
        repeat: Repeat::Once,
        cardinal_step_duration: 25_000,
    }
    .build();
    let mut cardinal = 0;
    let mut diagonal = 0;
    let mut dx = 0i32;
    let mut dy = 0i32;
    loop {
        let (event, delay) = state.tick();
        match event {
            Some(step) => {
                let c = step.coord();
                dx += c.x;
                dy += c.y;
                if step.is_cardinal() {
                    assert_eq!(delay, 25_000);
                    cardinal += 1;
                } else {
                    // diagonal steps take √2 times as long
                    assert_eq!(delay, 35_355);
                    diagonal += 1;
                }
            }
            None => break,
        }
    }
    // the traversal covers the displacement in max-axis many steps
    assert_eq!(cardinal + diagonal, 3);
    assert_eq!(diagonal, 1);
    assert_eq!((dx, dy), (3, 1));
}

#[test]
fn zero_displacement_is_exhausted_from_the_start() {
    let mut state = Movement {
        path: Coord::new(0, 0),
        repeat: Repeat::Forever,
        cardinal_step_duration: 25_000,
    }
    .build();
    assert!(matches!(state.path, PathState::Done));
    let (event, _) = state.tick();
    assert_eq!(event, None);
}

#[test]
fn fades_advance_to_completion() {
    let mut fade = FadeState::new(40_000);
    let mut steps = 0;
    loop {
        match fade.tick() {
            FadeProgress::Fading(fraction) => {
                steps += 1;
                assert!(steps <= 4);
                let _ = fraction;
            }
            FadeProgress::Complete => break,
        }
    }
    // 40 ms at one frame (16.667 ms) per tick: three fading ticks
    assert_eq!(steps, 3);
}
