//! Pose → pointer-intent fusion: debounced hand poses become the pointer
//! intents the platform feeds to the UI toolkit. Pinch is the primary
//! press and release, middle-pinch the secondary, two fingers scroll while
//! the pointer parks, and grab drags the whole hand. Held buttons are
//! always released when tracking is lost. Cursor positions are `f32`
//! pairs carried by their bit patterns; the caller measures the scroll
//! motion.

use vstd::prelude::*;
use crate::abi::HandPose;

verus! {

/// A cursor position: two `f32` values carried by their bits.
pub type Pos = (u32, u32);

/// One intent for the platform.
#[derive(Debug, Clone, Copy)]
pub enum HandIntent {
    Move(Pos),
    Press { pos: Pos, secondary: bool },
    Release { pos: Pos, secondary: bool },
    /// A wheel step at the parked pointer; `dy` is the `f32` bits of the
    /// vertical hand motion.
    Scroll { pos: Pos, dy: u32 },
    GrabStart(Pos),
    GrabMove(Pos),
    GrabEnd(Pos),
}

/// The fusion state: the previous pose and cursor, and what is held.
#[derive(Debug)]
pub struct Fusion {
    pub prev_pose: Option<HandPose>,
    pub prev_cursor: Option<Pos>,
    pub primary_down: bool,
    pub secondary_down: bool,
    pub grabbing: bool,
    /// The intents not yet taken, oldest first.
    pub intents: Vec<HandIntent>,
}

/// The view of the state: previous pose, previous cursor, primary held,
/// secondary held, grabbing.
pub type FusionView = (Option<HandPose>, Option<Pos>, bool, bool, bool);

/// The view of the state.
pub open spec fn fusion_view(f: Fusion) -> FusionView {
    (f.prev_pose, f.prev_cursor, f.primary_down, f.secondary_down, f.grabbing)
}

/// Losing the hand: whatever is held is released at `c`, and the pose and
/// cursor are forgotten.
pub open spec fn lost_spec(f: FusionView, c: Pos) -> (FusionView, Seq<HandIntent>) {
    let out = (if f.2 { seq![HandIntent::Release { pos: c, secondary: false }] } else { Seq::empty() })
        + (if f.3 { seq![HandIntent::Release { pos: c, secondary: true }] } else { Seq::empty() })
        + (if f.4 { seq![HandIntent::GrabEnd(c)] } else { Seq::empty() });
    ((None, None, false, false, false), out)
}

/// Leaving the pose `prev` releases what it held, at `c`.
pub open spec fn exit_spec(f: FusionView, prev: HandPose, c: Pos) -> (FusionView, Seq<HandIntent>) {
    if prev == HandPose::Pinch && f.2 {
        ((f.0, f.1, false, f.3, f.4), seq![HandIntent::Release { pos: c, secondary: false }])
    } else if prev == HandPose::MiddlePinch && f.3 {
        ((f.0, f.1, f.2, false, f.4), seq![HandIntent::Release { pos: c, secondary: true }])
    } else if prev == HandPose::Grab && f.4 {
        ((f.0, f.1, f.2, f.3, false), seq![HandIntent::GrabEnd(c)])
    } else {
        (f, Seq::empty())
    }
}

/// What the pose `pose` at `c` does once the previous pose was left.
pub open spec fn pose_spec(f: FusionView, pose: HandPose, entered: bool, c: Pos, dy: Option<u32>) -> (FusionView, Seq<HandIntent>) {
    if pose == HandPose::Pinch {
        if entered && !f.2 {
            ((f.0, f.1, true, f.3, f.4), seq![HandIntent::Move(c), HandIntent::Press { pos: c, secondary: false }])
        } else {
            (f, seq![HandIntent::Move(c)])
        }
    } else if pose == HandPose::MiddlePinch {
        if entered && !f.3 {
            ((f.0, f.1, f.2, true, f.4), seq![HandIntent::Move(c), HandIntent::Press { pos: c, secondary: true }])
        } else {
            (f, seq![HandIntent::Move(c)])
        }
    } else if pose == HandPose::TwoFinger {
        (f, match (f.1, dy) {
            (Some(p), Some(d)) => seq![HandIntent::Scroll { pos: p, dy: d }],
            _ => Seq::empty(),
        })
    } else if pose == HandPose::Grab {
        if entered && !f.4 {
            ((f.0, f.1, f.2, f.3, true), seq![HandIntent::GrabStart(c)])
        } else {
            (f, seq![HandIntent::GrabMove(c)])
        }
    } else {
        (f, seq![HandIntent::Move(c)])
    }
}

/// The cursor remembered after a frame: the pointer parks while scrolling
/// and only the hand's height is followed.
pub open spec fn next_cursor(prev: Option<Pos>, pose: HandPose, c: Pos) -> Option<Pos> {
    if pose != HandPose::TwoFinger {
        Some(c)
    } else {
        match prev {
            None => Some(c),
            Some(p) => Some((p.0, c.1)),
        }
    }
}

/// One frame: the new state and the intents it adds. `dy` is the scroll
/// motion the caller measured, when large enough to scroll.
pub open spec fn step_spec(f: FusionView, pose: HandPose, c: Pos, tracking: bool, dy: Option<u32>) -> (FusionView, Seq<HandIntent>) {
    if !tracking {
        lost_spec(f, c)
    } else {
        let entered = f.0 != Some(pose);
        let (f1, o1) = if entered && f.0 is Some { exit_spec(f, f.0->0, c) } else { (f, Seq::empty()) };
        let (f2, o2) = pose_spec(f1, pose, entered, c, dy);
        ((Some(pose), next_cursor(f2.1, pose, c), f2.2, f2.3, f2.4), o1 + o2)
    }
}

impl Fusion {
    /// Nothing held, nothing seen.
    pub fn new() -> (r: Self)
        ensures
            fusion_view(r) == (None::<HandPose>, None::<Pos>, false, false, false),
            r.intents@.len() == 0,
    {
        Fusion {
            prev_pose: None,
            prev_cursor: None,
            primary_down: false,
            secondary_down: false,
            grabbing: false,
            intents: Vec::new(),
        }
    }

    /// Tracking lost: releases everything held at `c` and forgets the pose.
    pub fn lost(&mut self, c: Pos)
        ensures
            fusion_view(*final(self)) == lost_spec(fusion_view(*old(self)), c).0,
            final(self).intents@ == old(self).intents@ + lost_spec(fusion_view(*old(self)), c).1,
    {
        let ghost f = fusion_view(*self);
        let ghost i0 = self.intents@;
        if self.primary_down {
            self.intents.push(HandIntent::Release { pos: c, secondary: false });
            self.primary_down = false;
        }
        let ghost i1 = self.intents@;
        if self.secondary_down {
            self.intents.push(HandIntent::Release { pos: c, secondary: true });
            self.secondary_down = false;
        }
        let ghost i2 = self.intents@;
        if self.grabbing {
            self.intents.push(HandIntent::GrabEnd(c));
            self.grabbing = false;
        }
        self.prev_pose = None;
        self.prev_cursor = None;
        let ghost out = lost_spec(f, c).1;
        assert(self.intents@ =~= i0 + out);
    }

    /// Leaves the pose `prev` at `c`.
    fn exit_pose(&mut self, prev: HandPose, c: Pos)
        ensures
            fusion_view(*final(self)) == exit_spec(fusion_view(*old(self)), prev, c).0,
            final(self).intents@ == old(self).intents@ + exit_spec(fusion_view(*old(self)), prev, c).1,
    {
        if prev == HandPose::Pinch && self.primary_down {
            self.intents.push(HandIntent::Release { pos: c, secondary: false });
            self.primary_down = false;
        } else if prev == HandPose::MiddlePinch && self.secondary_down {
            self.intents.push(HandIntent::Release { pos: c, secondary: true });
            self.secondary_down = false;
        } else if prev == HandPose::Grab && self.grabbing {
            self.intents.push(HandIntent::GrabEnd(c));
            self.grabbing = false;
        }
        assert(self.intents@ =~= old(self).intents@ + exit_spec(fusion_view(*old(self)), prev, c).1);
    }

    /// Feeds one debounced frame: the pose, the cursor `c` and whether a
    /// hand is tracked; `dy` is the vertical hand motion since the
    /// remembered cursor (`f32` bits), given when it is large enough to
    /// scroll.
    pub fn step(&mut self, pose: HandPose, c: Pos, tracking: bool, dy: Option<u32>)
        ensures
            fusion_view(*final(self)) == step_spec(fusion_view(*old(self)), pose, c, tracking, dy).0,
            final(self).intents@ == old(self).intents@ + step_spec(fusion_view(*old(self)), pose, c, tracking, dy).1,
    {
        if !tracking {
            self.lost(c);
            return;
        }
        let ghost f = fusion_view(*self);
        let ghost i0 = self.intents@;
        let entered = match self.prev_pose {
            Some(p) => p != pose,
            None => true,
        };
        if entered {
            if let Some(prev) = self.prev_pose {
                self.exit_pose(prev, c);
            }
        }
        let ghost i1 = self.intents@;
        let ghost f1 = fusion_view(*self);
        if pose == HandPose::Pinch {
            if entered && !self.primary_down {
                self.intents.push(HandIntent::Move(c));
                self.intents.push(HandIntent::Press { pos: c, secondary: false });
                self.primary_down = true;
            } else {
                self.intents.push(HandIntent::Move(c));
            }
        } else if pose == HandPose::MiddlePinch {
            if entered && !self.secondary_down {
                self.intents.push(HandIntent::Move(c));
                self.intents.push(HandIntent::Press { pos: c, secondary: true });
                self.secondary_down = true;
            } else {
                self.intents.push(HandIntent::Move(c));
            }
        } else if pose == HandPose::TwoFinger {
            match (self.prev_cursor, dy) {
                (Some(p), Some(d)) => self.intents.push(HandIntent::Scroll { pos: p, dy: d }),
                _ => {},
            }
        } else if pose == HandPose::Grab {
            if entered && !self.grabbing {
                self.intents.push(HandIntent::GrabStart(c));
                self.grabbing = true;
            } else {
                self.intents.push(HandIntent::GrabMove(c));
            }
        } else {
            self.intents.push(HandIntent::Move(c));
        }
        let ghost o2 = pose_spec(f1, pose, entered, c, dy).1;
        assert(self.intents@ =~= i1 + o2);
        self.prev_pose = Some(pose);
        if pose != HandPose::TwoFinger {
            self.prev_cursor = Some(c);
        } else {
            match self.prev_cursor {
                None => self.prev_cursor = Some(c),
                Some(p) => self.prev_cursor = Some((p.0, c.1)),
            }
        }
        assert(entered == (f.0 != Some(pose)));
        assert(self.intents@ =~= i0 + step_spec(f, pose, c, tracking, dy).1);
    }

    /// Hands out the intents gathered so far, oldest first, and forgets
    /// them.
    pub fn take_intents(&mut self) -> (r: Vec<HandIntent>)
        ensures
            r@ == old(self).intents@,
            final(self).intents@.len() == 0,
            fusion_view(*final(self)) == fusion_view(*old(self)),
    {
        let mut r: Vec<HandIntent> = Vec::new();
        std::mem::swap(&mut r, &mut self.intents);
        r
    }
}

/// A vanished hand never leaves anything held: losing tracking releases
/// each held button and ends a grab, at the last cursor, and nothing else.
pub proof fn law_loss_releases_all(f: FusionView, pose: HandPose, c: Pos, dy: Option<u32>)
    ensures
        ({
            let (g, out) = step_spec(f, pose, c, false, dy);
            &&& !g.2 && !g.3 && !g.4
            &&& g.0 is None && g.1 is None
            &&& out.contains(HandIntent::Release { pos: c, secondary: false }) == f.2
            &&& out.contains(HandIntent::Release { pos: c, secondary: true }) == f.3
            &&& out.contains(HandIntent::GrabEnd(c)) == f.4
            &&& out.len() == (if f.2 { 1int } else { 0 }) + (if f.3 { 1int } else { 0 }) + (if f.4 { 1int } else { 0 })
        }),
{
    let out = lost_spec(f, c).1;
    let r0 = HandIntent::Release { pos: c, secondary: false };
    let r1 = HandIntent::Release { pos: c, secondary: true };
    let ge = HandIntent::GrabEnd(c);
    if f.2 {
        assert(out[0] == r0);
    }
    if f.3 {
        assert(out[if f.2 { 1int } else { 0 }] == r1);
    }
    if f.4 {
        assert(out[out.len() - 1] == ge);
    }
    if out.contains(r0) {
        let i = choose|i: int| 0 <= i < out.len() && out[i] == r0;
    }
    if out.contains(r1) {
        let i = choose|i: int| 0 <= i < out.len() && out[i] == r1;
    }
    if out.contains(ge) {
        let i = choose|i: int| 0 <= i < out.len() && out[i] == ge;
    }
}

/// Whether an intent presses the primary button.
pub open spec fn presses_primary(i: HandIntent) -> bool {
    i matches HandIntent::Press { secondary: false, .. }
}

/// Whether an intent releases the primary button.
pub open spec fn releases_primary(i: HandIntent) -> bool {
    i matches HandIntent::Release { secondary: false, .. }
}

/// Presses and releases alternate: a frame presses the primary button
/// only while it is up, leaving it down, and releases it only while it is
/// down, leaving it up.
pub proof fn law_press_release_alternate(f: FusionView, pose: HandPose, c: Pos, tracking: bool, dy: Option<u32>, i: int)
    requires
        0 <= i < step_spec(f, pose, c, tracking, dy).1.len(),
    ensures
        presses_primary(step_spec(f, pose, c, tracking, dy).1[i]) ==> !f.2 && step_spec(f, pose, c, tracking, dy).0.2,
        releases_primary(step_spec(f, pose, c, tracking, dy).1[i]) ==> f.2 && !step_spec(f, pose, c, tracking, dy).0.2,
{
    if tracking {
        let entered = f.0 != Some(pose);
        let (f1, o1) = if entered && f.0 is Some { exit_spec(f, f.0->0, c) } else { (f, Seq::<HandIntent>::empty()) };
        let (f2, o2) = pose_spec(f1, pose, entered, c, dy);
        let out = o1 + o2;
        assert(step_spec(f, pose, c, tracking, dy).1 == out);
        if i < o1.len() {
            assert(out[i] == o1[i]);
        } else {
            assert(out[i] == o2[i - o1.len()]);
        }
    } else {
        let out = lost_spec(f, c).1;
        if f.2 {
            assert(out[0] == HandIntent::Release { pos: c, secondary: false });
        }
    }
}

/// Whether an intent presses the secondary button.
pub open spec fn presses_secondary(i: HandIntent) -> bool {
    i matches HandIntent::Press { secondary: true, .. }
}

/// Whether an intent releases the secondary button.
pub open spec fn releases_secondary(i: HandIntent) -> bool {
    i matches HandIntent::Release { secondary: true, .. }
}

/// Leaving a pose lets go of what it held: on a tracked frame whose pose
/// differs from the previous one, a held primary button of a previous
/// pinch, a held secondary button of a previous middle pinch, or a grab of
/// a previous grab is released (ended) at the cursor, and afterwards it is
/// no longer held.
pub proof fn law_leaving_a_pose_releases(f: FusionView, prev: HandPose, pose: HandPose, c: Pos, dy: Option<u32>)
    requires
        f.0 == Some(prev),
        pose != prev,
    ensures
        prev == HandPose::Pinch && f.2 ==> step_spec(f, pose, c, true, dy).1.contains(HandIntent::Release { pos: c, secondary: false })
            && !step_spec(f, pose, c, true, dy).0.2,
        prev == HandPose::MiddlePinch && f.3 ==> step_spec(f, pose, c, true, dy).1.contains(HandIntent::Release { pos: c, secondary: true })
            && !step_spec(f, pose, c, true, dy).0.3,
        prev == HandPose::Grab && f.4 ==> step_spec(f, pose, c, true, dy).1.contains(HandIntent::GrabEnd(c))
            && !step_spec(f, pose, c, true, dy).0.4,
{
    let (f1, o1) = exit_spec(f, prev, c);
    let (f2, o2) = pose_spec(f1, pose, true, c, dy);
    let out = o1 + o2;
    assert(step_spec(f, pose, c, true, dy).1 == out);
    if o1.len() > 0 {
        assert(out[0] == o1[0]);
    }
}

/// Secondary presses and releases alternate: a frame presses the
/// secondary button only while it is up, leaving it down, and releases it
/// only while it is down, leaving it up.
pub proof fn law_secondary_alternates(f: FusionView, pose: HandPose, c: Pos, tracking: bool, dy: Option<u32>, i: int)
    requires
        0 <= i < step_spec(f, pose, c, tracking, dy).1.len(),
    ensures
        presses_secondary(step_spec(f, pose, c, tracking, dy).1[i]) ==> !f.3 && step_spec(f, pose, c, tracking, dy).0.3,
        releases_secondary(step_spec(f, pose, c, tracking, dy).1[i]) ==> f.3 && !step_spec(f, pose, c, tracking, dy).0.3,
{
    if tracking {
        let entered = f.0 != Some(pose);
        let (f1, o1) = if entered && f.0 is Some { exit_spec(f, f.0->0, c) } else { (f, Seq::<HandIntent>::empty()) };
        let (f2, o2) = pose_spec(f1, pose, entered, c, dy);
        let out = o1 + o2;
        assert(step_spec(f, pose, c, tracking, dy).1 == out);
        if i < o1.len() {
            assert(out[i] == o1[i]);
        } else {
            assert(out[i] == o2[i - o1.len()]);
        }
    } else {
        let out = lost_spec(f, c).1;
        if f.2 {
            assert(out[0] == HandIntent::Release { pos: c, secondary: false });
        }
        if f.3 {
            assert(out[if f.2 { 1int } else { 0 }] == HandIntent::Release { pos: c, secondary: true });
        }
    }
}

/// Entering a pose takes hold: on a tracked frame that enters a pinch
/// with the primary button up, the button is pressed at the cursor (after
/// a move there) and is down afterwards; likewise a middle pinch presses
/// the secondary button and a grab starts a drag. A frame that keeps two
/// fingers up scrolls by the measured motion at the parked pointer and
/// never moves it.
pub proof fn law_entering_a_pose_presses(f: FusionView, pose: HandPose, c: Pos, dy: Option<u32>)
    requires
        f.0 != Some(pose),
    ensures
        pose == HandPose::Pinch && !f.2 ==> step_spec(f, pose, c, true, dy).1.contains(HandIntent::Press { pos: c, secondary: false })
            && step_spec(f, pose, c, true, dy).0.2,
        pose == HandPose::MiddlePinch && !f.3 ==> step_spec(f, pose, c, true, dy).1.contains(HandIntent::Press { pos: c, secondary: true })
            && step_spec(f, pose, c, true, dy).0.3,
        pose == HandPose::Grab && !f.4 ==> step_spec(f, pose, c, true, dy).1.contains(HandIntent::GrabStart(c))
            && step_spec(f, pose, c, true, dy).0.4,
{
    let (f1, o1) = if f.0 is Some { exit_spec(f, f.0->0, c) } else { (f, Seq::<HandIntent>::empty()) };
    let (f2, o2) = pose_spec(f1, pose, true, c, dy);
    let out = o1 + o2;
    assert(step_spec(f, pose, c, true, dy).1 == out);
    if pose == HandPose::Pinch && !f.2 {
        assert(!f1.2);
        assert(out[o1.len() as int + 1] == o2[1]);
    }
    if pose == HandPose::MiddlePinch && !f.3 {
        assert(!f1.3);
        assert(out[o1.len() as int + 1] == o2[1]);
    }
    if pose == HandPose::Grab && !f.4 {
        assert(!f1.4);
        assert(out[o1.len() as int] == o2[0]);
    }
}

/// Two fingers held scroll without moving the pointer: a tracked frame
/// that stays in the two-finger pose, with a remembered cursor `p` and a
/// measured motion `d`, gives exactly one wheel step by `d` at `p`, and the
/// pointer stays parked at `p`'s column.
pub proof fn law_two_fingers_scroll(f: FusionView, c: Pos, p: Pos, d: u32)
    requires
        f.0 == Some(HandPose::TwoFinger),
        f.1 == Some(p),
    ensures
        step_spec(f, HandPose::TwoFinger, c, true, Some(d)).1 == seq![HandIntent::Scroll { pos: p, dy: d }],
        step_spec(f, HandPose::TwoFinger, c, true, Some(d)).0.1 == Some((p.0, c.1)),
{
    let out = step_spec(f, HandPose::TwoFinger, c, true, Some(d)).1;
    assert(out =~= seq![HandIntent::Scroll { pos: p, dy: d }]);
}

} // verus!
