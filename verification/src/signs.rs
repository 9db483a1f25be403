//! The sign engine: per-sign state machines over the debounced pose
//! stream. RECORD is a still ✋ open palm held `PALM_HOLD_MS`; COMMAND a
//! still ☝ point held `POINT_HOLD_MS`. A hold that drifts re-arms, a fired
//! sign waits out a refractory period and must be released before it can
//! re-arm, and tracking loss aborts silently. Times are in milliseconds;
//! the caller measures drift, since positions are `f32` values.

use vstd::prelude::*;
use crate::abi::{CslSign, HandPose};
use crate::fusion::Pos;

verus! {

/// How long the palm must be held to fire RECORD.
pub const PALM_HOLD_MS: u64 = 1000;

/// How long the point must be held to fire COMMAND.
pub const POINT_HOLD_MS: u64 = 800;

/// How long after a sign no sign can fire.
pub const REFRACTORY_MS: u64 = 1000;

/// The sign engine.
#[derive(Debug)]
pub struct SignEngine {
    /// When the still palm hold began.
    pub palm_since: Option<u64>,
    /// The cursor when the palm hold began (the drift reference).
    pub anchor: Option<Pos>,
    /// RECORD fired; the palm must drop before it re-arms.
    pub fired: bool,
    /// No sign fires before this time.
    pub refractory_until: u64,
    /// When the still point hold began.
    pub point_since: Option<u64>,
    /// The cursor when the point hold began.
    pub point_anchor: Option<Pos>,
    /// COMMAND fired; the point must drop before it re-arms.
    pub point_fired: bool,
}

/// The view of the engine: palm since, anchor, fired, refractory end,
/// point since, point anchor, point fired.
pub type SignView = (Option<u64>, Option<Pos>, bool, u64, Option<u64>, Option<Pos>, bool);

/// The view of the engine.
pub open spec fn sign_view(e: SignEngine) -> SignView {
    (e.palm_since, e.anchor, e.fired, e.refractory_until, e.point_since, e.point_anchor, e.point_fired)
}

/// A hold at `now`: the re-armed hold when the cursor drifted, else the
/// hold kept (begun now if it had not begun), and whether it completes
/// after `hold` ms. Gives the new start, the new anchor and the result.
pub open spec fn hold_spec(since: Option<u64>, anchor: Option<Pos>, pos: Option<Pos>, now: u64, drift: bool, hold: u64) -> (Option<u64>, Option<Pos>, bool) {
    if anchor is Some && pos is Some && drift {
        (Some(now), pos, false)
    } else {
        let s = match since {
            Some(t) => t,
            None => now,
        };
        let a = if anchor is None { pos } else { anchor };
        (Some(s), a, now - s >= hold)
    }
}

/// One frame: the pose, the cursor, whether a hand is tracked, the time
/// and whether the cursor drifted more than the sign tolerates from the
/// anchor of the current hold. Gives the new state and the completed
/// sign, if any.
pub open spec fn sign_step(e: SignView, pose: HandPose, pos: Option<Pos>, tracking: bool, now: u64, drift: bool) -> (SignView, Option<CslSign>) {
    let (palm, anchor, fired, until, point, panchor, pfired) = e;
    if !tracking {
        ((None, None, false, until, None, None, false), None)
    } else if pose == HandPose::Point {
        if pfired || now < until {
            ((None, None, false, until, point, panchor, pfired), None)
        } else {
            let (s, a, done) = hold_spec(point, panchor, pos, now, drift, POINT_HOLD_MS);
            if done {
                ((None, None, false, (now + REFRACTORY_MS) as u64, None, None, true), Some(CslSign::Command))
            } else {
                ((None, None, false, until, s, a, pfired), None)
            }
        }
    } else if pose != HandPose::OpenPalm {
        ((None, None, false, until, None, None, false), None)
    } else if fired || now < until {
        ((palm, anchor, fired, until, None, None, false), None)
    } else {
        let (s, a, done) = hold_spec(palm, anchor, pos, now, drift, PALM_HOLD_MS);
        if done {
            ((None, None, true, (now + REFRACTORY_MS) as u64, None, None, false), Some(CslSign::Record))
        } else {
            ((s, a, fired, until, None, None, false), None)
        }
    }
}

impl SignEngine {
    /// Nothing held, nothing fired.
    pub fn new() -> (r: Self)
        ensures
            sign_view(r) == (None::<u64>, None::<Pos>, false, 0u64, None::<u64>, None::<Pos>, false),
    {
        SignEngine {
            palm_since: None,
            anchor: None,
            fired: false,
            refractory_until: 0,
            point_since: None,
            point_anchor: None,
            point_fired: false,
        }
    }

    /// Feeds one debounced frame (see [`sign_step`]); gives a completed
    /// sign at most once per gesture.
    pub fn step(&mut self, pose: HandPose, pos: Option<Pos>, tracking: bool, now: u64, drift: bool) -> (r: Option<CslSign>)
        requires
            now <= u64::MAX - REFRACTORY_MS,
        ensures
            (sign_view(*final(self)), r) == sign_step(sign_view(*old(self)), pose, pos, tracking, now, drift),
    {
        if !tracking {
            self.palm_since = None;
            self.anchor = None;
            self.point_since = None;
            self.point_anchor = None;
            self.fired = false;
            self.point_fired = false;
            return None;
        }
        if pose == HandPose::Point {
            self.palm_since = None;
            self.anchor = None;
            self.fired = false;
            if self.point_fired || now < self.refractory_until {
                return None;
            }
            if self.point_anchor.is_some() && pos.is_some() && drift {
                self.point_since = Some(now);
                self.point_anchor = pos;
                return None;
            }
            let since = match self.point_since {
                Some(t) => t,
                None => now,
            };
            self.point_since = Some(since);
            if self.point_anchor.is_none() {
                self.point_anchor = pos;
            }
            if now >= since && now - since >= POINT_HOLD_MS {
                self.point_since = None;
                self.point_anchor = None;
                self.point_fired = true;
                self.refractory_until = now + REFRACTORY_MS;
                return Some(CslSign::Command);
            }
            return None;
        }
        self.point_since = None;
        self.point_anchor = None;
        self.point_fired = false;
        if pose != HandPose::OpenPalm {
            self.palm_since = None;
            self.anchor = None;
            self.fired = false;
            return None;
        }
        if self.fired || now < self.refractory_until {
            return None;
        }
        if self.anchor.is_some() && pos.is_some() && drift {
            self.palm_since = Some(now);
            self.anchor = pos;
            return None;
        }
        let since = match self.palm_since {
            Some(t) => t,
            None => now,
        };
        self.palm_since = Some(since);
        if self.anchor.is_none() {
            self.anchor = pos;
        }
        if now >= since && now - since >= PALM_HOLD_MS {
            self.palm_since = None;
            self.anchor = None;
            self.fired = true;
            self.refractory_until = now + REFRACTORY_MS;
            return Some(CslSign::Record);
        }
        None
    }
}

/// A sign fires at most once per gesture: while the palm (or the point)
/// stays raised after firing, no frame fires again, and tracking loss
/// never fires.
pub proof fn law_once_per_gesture(e: SignView, pose: HandPose, pos: Option<Pos>, tracking: bool, now: u64, drift: bool)
    ensures
        !tracking ==> sign_step(e, pose, pos, tracking, now, drift).1 is None,
        e.2 && pose == HandPose::OpenPalm ==> sign_step(e, pose, pos, tracking, now, drift).1 is None,
        e.6 && pose == HandPose::Point ==> sign_step(e, pose, pos, tracking, now, drift).1 is None,
        now < e.3 ==> sign_step(e, pose, pos, tracking, now, drift).1 is None,
        sign_step(e, pose, pos, tracking, now, drift).1 == Some(CslSign::Record) ==> sign_step(e, pose, pos, tracking, now, drift).0.2,
        sign_step(e, pose, pos, tracking, now, drift).1 == Some(CslSign::Command) ==> sign_step(e, pose, pos, tracking, now, drift).0.6,
{
}

} // verus!
