use pmos::abi::HandPose;
use pmos::fusion::{Fusion, HandIntent, Pos};

fn pos(p: [f32; 2]) -> Pos {
    (p[0].to_bits(), p[1].to_bits())
}

/// The caller's part of a frame: the vertical motion since the
/// remembered cursor, when it is large enough to scroll.
fn feed(f: &mut Fusion, pose: HandPose, c: [f32; 2], tracking: bool) {
    let dy = match f.prev_cursor {
        Some((_, y)) => {
            let d = c[1] - f32::from_bits(y);
            if d.abs() > 0.01 { Some(d.to_bits()) } else { None }
        }
        None => None,
    };
    f.step(pose, pos(c), tracking, dy);
}

fn poses(seq: &[(HandPose, [f32; 2])]) -> Vec<HandIntent> {
    let mut f = Fusion::new();
    for &(p, c) in seq {
        feed(&mut f, p, c, true);
    }
    f.take_intents()
}

fn is_press(i: &HandIntent, at: [f32; 2], secondary: bool) -> bool {
    matches!(i, HandIntent::Press { pos: p, secondary: s } if *p == pos(at) && *s == secondary)
}

fn is_release(i: &HandIntent, at: [f32; 2], secondary: bool) -> bool {
    matches!(i, HandIntent::Release { pos: p, secondary: s } if *p == pos(at) && *s == secondary)
}

#[test]
fn pinch_produces_press_then_release() {
    let out = poses(&[
        (HandPose::Point, [10.0, 10.0]),
        (HandPose::Pinch, [10.0, 10.0]),
        (HandPose::Pinch, [20.0, 12.0]),
        (HandPose::Point, [20.0, 12.0]),
    ]);
    assert!(out.iter().any(|i| is_press(i, [10.0, 10.0], false)));
    assert!(out.iter().any(|i| is_release(i, [20.0, 12.0], false)));
    let press = out.iter().position(|i| matches!(i, HandIntent::Press { .. })).unwrap();
    let release = out.iter().position(|i| matches!(i, HandIntent::Release { .. })).unwrap();
    assert!(press < release);
}

#[test]
fn tracking_loss_releases_held_pinch() {
    let mut f = Fusion::new();
    feed(&mut f, HandPose::Pinch, [5.0, 5.0], true);
    feed(&mut f, HandPose::Pinch, [6.0, 5.0], false); // hand vanished
    let out = f.take_intents();
    assert!(out.iter().any(|i| matches!(i, HandIntent::Release { secondary: false, .. })));
}

#[test]
fn grab_lifecycle() {
    let out = poses(&[
        (HandPose::Grab, [1.0, 1.0]),
        (HandPose::Grab, [2.0, 2.0]),
        (HandPose::Rest, [3.0, 3.0]),
    ]);
    assert!(matches!(out[0], HandIntent::GrabStart(p) if p == pos([1.0, 1.0])));
    assert!(out.iter().any(|i| matches!(i, HandIntent::GrabMove(p) if *p == pos([2.0, 2.0]))));
    assert!(out.iter().any(|i| matches!(i, HandIntent::GrabEnd(p) if *p == pos([3.0, 3.0]))));
}

#[test]
fn two_finger_scrolls_without_moving() {
    let out = poses(&[
        (HandPose::Point, [50.0, 50.0]),
        (HandPose::TwoFinger, [50.0, 50.0]),
        (HandPose::TwoFinger, [50.0, 60.0]),
    ]);
    assert!(out
        .iter()
        .any(|i| matches!(i, HandIntent::Scroll { dy, .. } if (f32::from_bits(*dy) - 10.0).abs() < 0.5)));
    // No Move intents while scrolling.
    assert!(!out[1..].iter().any(|i| matches!(i, HandIntent::Move(_))));
}

#[test]
fn losing_the_hand_releases_every_held_button_and_grab() {
    let mut f = Fusion::new();
    feed(&mut f, HandPose::MiddlePinch, [1.0, 1.0], true);
    assert!(f.secondary_down);
    f.take_intents();
    f.lost(pos([4.0, 4.0]));
    let out = f.take_intents();
    assert_eq!(out.len(), 1);
    assert!(is_release(&out[0], [4.0, 4.0], true));
    assert!(!f.primary_down && !f.secondary_down && !f.grabbing);
    assert_eq!(f.prev_pose, None);
}
