use arcade_core::animation::{Animation, AnimationSM};
use arcade_core::types::Rect;

fn r(x: i32) -> Rect {
    Rect { x, y: 0, w: 8, h: 8 }
}

fn walk_sm() -> AnimationSM {
    let idle = Animation::new(vec![r(0)], vec![60], 0, true);
    let walk = Animation::new(vec![r(10), r(20)], vec![2, 2], 0, true);
    let jump = Animation::new(vec![r(30), r(40)], vec![3, 3], 0, false);
    AnimationSM::new(
        vec![idle, walk, jump],
        vec![
            (0, 1, "move".to_string()),
            (1, 0, "stop".to_string()),
            (0, 2, "jump".to_string()),
            (1, 2, "jump".to_string()),
            (2, 1, "".to_string()),
        ],
        0,
    )
}

#[test]
fn frames_follow_durations() {
    let a = Animation::new(vec![r(10), r(20)], vec![2, 2], 5, false);
    assert_eq!(a.current_frame(5), r(10));
    assert_eq!(a.current_frame(6), r(10));
    assert_eq!(a.current_frame(7), r(20));
    assert_eq!(a.current_frame(8), r(20));
    // Past the end of a one-shot animation: frame 0.
    assert_eq!(a.current_frame(9), r(10));
    // Before the start the elapsed time counts as zero.
    assert_eq!(a.current_frame(0), r(10));
}

#[test]
fn one_shot_done_exactly_after_total() {
    let a = Animation::new(vec![r(10), r(20)], vec![2, 3], 10, false);
    for now in 10..15 {
        assert!(!a.done(now));
    }
    for now in 15..30 {
        assert!(a.done(now));
    }
    assert!(!a.done(3));
}

#[test]
fn looping_never_done_and_periodic() {
    let a = Animation::new(vec![r(10), r(20), r(30)], vec![1, 2, 3], 4, true);
    for now in 4..40 {
        assert!(!a.done(now));
        for k in 0..4 {
            assert_eq!(a.current_frame(now), a.current_frame(now + k * 6));
        }
    }
    assert_eq!(a.current_frame(4), r(10));
    assert_eq!(a.current_frame(5), r(20));
    assert_eq!(a.current_frame(7), r(30));
    assert_eq!(a.current_frame(10), r(10));
}

#[test]
fn input_takes_first_matching_transition() {
    let mut sm = walk_sm();
    sm.input("move", 7);
    let a = sm.current_anim(8);
    // Walk restarted at 7: frame 0 at 8, frame 1 at 9.
    assert_eq!(a.current_frame(8), r(10));
    assert_eq!(sm.current_anim(9).current_frame(9), r(20));
    sm.input("stop", 9);
    assert_eq!(sm.current_anim(9).current_frame(9), r(0));
}

#[test]
fn unmatched_input_is_ignored() {
    let mut sm = walk_sm();
    sm.input("stop", 3);
    sm.input("", 3);
    sm.input("fly", 3);
    assert_eq!(sm.current_anim(3).current_frame(3), r(0));
    sm.input("move", 4);
    sm.input("move", 5);
    assert_eq!(sm.current_anim(4).current_frame(4), r(10));
}

#[test]
fn finished_animation_takes_automatic_transition() {
    let mut sm = walk_sm();
    sm.input("jump", 10);
    assert_eq!(sm.current_anim(12).current_frame(12), r(30));
    assert_eq!(sm.current_anim(14).current_frame(14), r(40));
    // Jump lasts 6 ticks: at 16 it is done and the empty-label transition
    // leads to walk, restarted at 16.
    assert_eq!(sm.current_anim(16).current_frame(16), r(10));
    assert_eq!(sm.current_anim(18).current_frame(18), r(20));
}

#[test]
fn finished_animation_without_transition_returns_to_start() {
    let idle = Animation::new(vec![r(0)], vec![60], 0, true);
    let once = Animation::new(vec![r(50)], vec![4], 0, false);
    let mut sm = AnimationSM::new(vec![idle, once], vec![(0, 1, "go".to_string())], 0);
    sm.input("go", 20);
    assert_eq!(sm.current_anim(21).current_frame(21), r(50));
    assert_eq!(sm.current_anim(24).current_frame(24), r(0));
}
