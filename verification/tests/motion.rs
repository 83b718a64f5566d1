use cell_motion::diagram::MoveType;
use cell_motion::motion::{interpolate, phase_of, remap, Phase, Pos, HIDDEN_COORD};

fn ph(num: u64, den: u64) -> Phase {
    Phase { num, den }
}

#[test]
fn remap_hits_exact_values() {
    assert_eq!(remap(0, 10, -5, 5), -5);
    assert_eq!(remap(5, 10, -5, 5), 0);
    assert_eq!(remap(9, 10, -5, 5), 4);
    assert_eq!(remap(0, 10, 5, -5), 5);
    assert_eq!(remap(5, 10, 5, -5), 0);
    assert_eq!(remap(3, 3000, 0, 3000), 3);
}

#[test]
fn center_stays_at_anchor_for_every_phase() {
    for num in 0..100u64 {
        let p = interpolate(MoveType::Center, 7, -3, 5, 5, ph(num, 100));
        assert_eq!(p, Pos { x: 7, y: -3 });
    }
}

#[test]
fn right_sweeps_from_left_edge_toward_right_edge() {
    // Anchor (0,0), half-width 5: phase 0 starts at (-5, 0), phase 1/2 is at
    // the anchor, and the sweep never reaches (5, 0) because the phase wraps
    // before reaching one.
    assert_eq!(interpolate(MoveType::Right, 0, 0, 5, 5, ph(0, 10)), Pos { x: -5, y: 0 });
    assert_eq!(interpolate(MoveType::Right, 0, 0, 5, 5, ph(5, 10)), Pos { x: 0, y: 0 });
    let near_end = interpolate(MoveType::Right, 0, 0, 5, 5, ph(9, 10));
    assert_eq!(near_end, Pos { x: 4, y: 0 });
    assert!(near_end.x < 5);
    for num in 0..1000u64 {
        assert!(interpolate(MoveType::Right, 0, 0, 5, 5, ph(num, 1000)).x < 5);
    }
}

#[test]
fn straight_directives_fix_the_other_axis() {
    assert_eq!(interpolate(MoveType::Left, 2, 9, 5, 7, ph(0, 4)), Pos { x: 7, y: 9 });
    assert_eq!(interpolate(MoveType::Up, 2, 9, 5, 7, ph(0, 4)), Pos { x: 2, y: 2 });
    assert_eq!(interpolate(MoveType::Down, 2, 9, 5, 7, ph(0, 4)), Pos { x: 2, y: 16 });
}

#[test]
fn blank_is_hidden() {
    let p = interpolate(MoveType::Blank, 0, 0, 5, 5, ph(3, 10));
    assert_eq!(p, Pos { x: HIDDEN_COORD, y: HIDDEN_COORD });
}

#[test]
fn corner_entry_points_are_exact() {
    // Each corner directive, with anchor (0,0) and half-extents (10, 20):
    // the documented entry point at phase zero, exactly.
    let cases = [
        (MoveType::BottomToLeft, Pos { x: 0, y: -20 }),
        (MoveType::TopToLeft, Pos { x: 0, y: 20 }),
        (MoveType::BottomToRight, Pos { x: 0, y: -20 }),
        (MoveType::TopToRight, Pos { x: 0, y: 20 }),
        (MoveType::LeftToTop, Pos { x: -10, y: 0 }),
        (MoveType::RightToTop, Pos { x: 10, y: 0 }),
        (MoveType::LeftToBottom, Pos { x: -10, y: 0 }),
        (MoveType::RightToBottom, Pos { x: 10, y: 0 }),
    ];
    for (mt, entry) in cases.iter() {
        assert_eq!(interpolate(*mt, 0, 0, 10, 20, ph(0, 8)), *entry);
    }
}

#[test]
fn corner_axes_move_monotonically_toward_exit() {
    // Each corner, with its exit endpoint: both coordinates move weakly
    // monotonically from the entry toward the exit as the phase grows.
    let cases = [
        (MoveType::BottomToLeft, Pos { x: -10, y: 0 }),
        (MoveType::TopToLeft, Pos { x: -10, y: 0 }),
        (MoveType::BottomToRight, Pos { x: 10, y: 0 }),
        (MoveType::TopToRight, Pos { x: 10, y: 0 }),
        (MoveType::LeftToTop, Pos { x: 0, y: 20 }),
        (MoveType::RightToTop, Pos { x: 0, y: 20 }),
        (MoveType::LeftToBottom, Pos { x: 0, y: -20 }),
        (MoveType::RightToBottom, Pos { x: 0, y: -20 }),
    ];
    for (mt, exit) in cases.iter() {
        let entry = interpolate(*mt, 0, 0, 10, 20, ph(0, 64));
        let mut prev = entry;
        for num in 1..64u64 {
            let cur = interpolate(*mt, 0, 0, 10, 20, ph(num, 64));
            if exit.x >= entry.x {
                assert!(prev.x <= cur.x && cur.x <= exit.x);
            } else {
                assert!(prev.x >= cur.x && cur.x >= exit.x);
            }
            if exit.y >= entry.y {
                assert!(prev.y <= cur.y && cur.y <= exit.y);
            } else {
                assert!(prev.y >= cur.y && cur.y >= exit.y);
            }
            prev = cur;
        }
    }
}

#[test]
fn phase_wraps_at_cycle_length() {
    let cycle = 1_000_000u64;
    for eps in [0u64, 1, 2, 17, 999_999] {
        assert_eq!(phase_of(cycle + eps, cycle), phase_of(eps, cycle));
    }
    assert_eq!(phase_of(0, cycle), phase_of(cycle, cycle));
    assert_eq!(phase_of(3, 7).num, 3);
    assert_eq!(phase_of(3, 7).den, 7);
}
