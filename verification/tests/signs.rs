use pmos::abi::{CslSign, HandPose};
use pmos::signs::SignEngine;

/// Cursor drift beyond this (points) re-arms a hold.
const MAX_DRIFT_PT: f32 = 70.0;

fn bits(p: [f32; 2]) -> (u32, u32) {
    (p[0].to_bits(), p[1].to_bits())
}

/// The caller's part of a frame: whether the cursor drifted from the
/// anchor of the hold the pose belongs to.
fn drifted(e: &SignEngine, pose: HandPose, pos: Option<[f32; 2]>) -> bool {
    let anchor = if pose == HandPose::Point { e.point_anchor } else { e.anchor };
    match (anchor, pos) {
        (Some((ax, ay)), Some(p)) => {
            (p[0] - f32::from_bits(ax)).abs() + (p[1] - f32::from_bits(ay)).abs() > MAX_DRIFT_PT
        }
        _ => false,
    }
}

fn ms(t: f64) -> u64 {
    (t * 1000.0).round() as u64
}

fn step(e: &mut SignEngine, pose: HandPose, pos: Option<[f32; 2]>, tracking: bool, t: f64) -> Option<CslSign> {
    let d = drifted(e, pose, pos);
    e.step(pose, pos.map(bits), tracking, ms(t), d)
}

fn feed(e: &mut SignEngine, pose: HandPose, pos: [f32; 2], from: f64, to: f64) -> Option<CslSign> {
    let mut t = from;
    while t <= to {
        if let Some(s) = step(e, pose, Some(pos), true, t) {
            return Some(s);
        }
        t += 1.0 / 30.0;
    }
    None
}

#[test]
fn still_palm_hold_fires_record() {
    let mut e = SignEngine::new();
    assert_eq!(feed(&mut e, HandPose::OpenPalm, [100.0, 100.0], 0.0, 1.2), Some(CslSign::Record));
}

#[test]
fn short_or_moving_palm_does_not_fire() {
    let mut e = SignEngine::new();
    assert_eq!(feed(&mut e, HandPose::OpenPalm, [100.0, 100.0], 0.0, 0.5), None);
    // Big jump re-arms the hold — total time never accumulates.
    assert_eq!(feed(&mut e, HandPose::OpenPalm, [300.0, 100.0], 0.6, 1.4), None);
    assert_eq!(
        feed(&mut e, HandPose::OpenPalm, [300.0, 100.0], 1.5, 1.9),
        Some(CslSign::Record) // still again → fires 1s after the jump
    );
}

#[test]
fn fist_never_fires_record() {
    let mut e = SignEngine::new();
    assert_eq!(feed(&mut e, HandPose::OpenPalm, [100.0, 100.0], 0.0, 0.6), None);
    assert_eq!(feed(&mut e, HandPose::Grab, [100.0, 100.0], 0.65, 1.8), None);
}

#[test]
fn must_release_palm_before_rearming() {
    let mut e = SignEngine::new();
    assert_eq!(feed(&mut e, HandPose::OpenPalm, [100.0, 100.0], 0.0, 1.2), Some(CslSign::Record));
    // Palm kept raised: silent, even past the refractory window.
    assert_eq!(feed(&mut e, HandPose::OpenPalm, [100.0, 100.0], 1.3, 4.0), None);
    // Drop, raise again → fires again.
    assert_eq!(feed(&mut e, HandPose::Rest, [100.0, 100.0], 4.1, 4.2), None);
    assert_eq!(feed(&mut e, HandPose::OpenPalm, [100.0, 100.0], 4.3, 5.5), Some(CslSign::Record));
}

#[test]
fn still_point_hold_fires_command() {
    let mut e = SignEngine::new();
    assert_eq!(feed(&mut e, HandPose::Point, [200.0, 200.0], 0.0, 1.0), Some(CslSign::Command));
    // Held pointing does not refire until the pose drops.
    assert_eq!(feed(&mut e, HandPose::Point, [200.0, 200.0], 1.1, 3.0), None);
}

#[test]
fn tracking_loss_aborts() {
    let mut e = SignEngine::new();
    assert_eq!(feed(&mut e, HandPose::OpenPalm, [100.0, 100.0], 0.0, 0.8), None);
    assert_eq!(step(&mut e, HandPose::OpenPalm, None, false, 0.85), None);
    assert_eq!(feed(&mut e, HandPose::OpenPalm, [100.0, 100.0], 0.9, 1.5), None);
    assert_eq!(feed(&mut e, HandPose::OpenPalm, [100.0, 100.0], 1.5, 2.1), Some(CslSign::Record));
}

#[test]
fn no_sign_fires_inside_the_refractory_window() {
    let mut e = SignEngine::new();
    assert_eq!(feed(&mut e, HandPose::OpenPalm, [100.0, 100.0], 0.0, 1.2), Some(CslSign::Record));
    let until = e.refractory_until;
    // A point held right away waits for the window to pass.
    assert_eq!(step(&mut e, HandPose::Point, Some([0.0, 0.0]), true, (until - 1) as f64 / 1000.0), None);
    assert_eq!(e.point_since, None);
}
