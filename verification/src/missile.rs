//! One missile: its launch, its placement at a given progress, its advance.

use vstd::prelude::*;
use crate::curve::{
    bezier, bezier_of, envelope, envelope_of, lemma_bezier_ends, lemma_envelope_ends, wobble,
    wobble_angle_of, wobble_of,
};
use crate::fixed::{CURVE_LIMIT, ENVELOPE_LIMIT, PROGRESS_LIMIT, UNIT};
use crate::vec3::{Point3, Vec3};

verus! {

/// How far above the shooter the first control point stands: eight units.
pub const START_TAG_LIFT: i64 = 8_000_000;

/// The second control point is drawn within this many millionths of the target along x.
pub const DEST_TAG_SPREAD_X: i64 = 8_000_000;

/// The second control point is drawn up to this many millionths above the target.
pub const DEST_TAG_SPREAD_Y: i64 = 10_000_000;

/// The second control point is drawn within this many millionths of the target along z.
pub const DEST_TAG_SPREAD_Z: i64 = 5_000_000;

/// The phase of the wobble is drawn within this many millionths of a radian of zero.
pub const SIN_PHASE_SPREAD: i64 = 5_000_000;

/// The wobble along y runs this many millionths of a radian ahead of the one along x.
pub const AXIS_SHIFT: i64 = 16_000_000;

/// The marker that shows a missile is this large, in millionths of a unit: a fifth.
pub const MARKER_SCALE: i64 = 200_000;

/// The random part of a launch: where the second control point stands relative to the
/// target, and the phase of the wobble.
#[derive(Clone, Copy, Debug, PartialEq, Eq)]
pub struct Scatter {
    pub dest_tag: Vec3,
    pub sin_phase: i64,
}

/// The offset and the phase lie in the ranges a launch draws them from:
/// x in [-8, 8], y in [0, 10], z in [-5, 5] and the phase in [-5, 5].
pub open spec fn scatter_in_range(dest_tag: Point3, sin_phase: int) -> bool {
    &&& -DEST_TAG_SPREAD_X <= dest_tag.x <= DEST_TAG_SPREAD_X
    &&& 0 <= dest_tag.y <= DEST_TAG_SPREAD_Y
    &&& -DEST_TAG_SPREAD_Z <= dest_tag.z <= DEST_TAG_SPREAD_Z
    &&& -SIN_PHASE_SPREAD <= sin_phase <= SIN_PHASE_SPREAD
}

impl Scatter {
    /// The offset and the phase lie in the ranges a launch draws them from.
    pub open spec fn in_range(self) -> bool {
        scatter_in_range(self.dest_tag@, self.sin_phase as int)
    }

    /// Tests [`Scatter::in_range`].
    pub fn is_in_range(&self) -> (ok: bool)
        ensures
            ok == self.in_range(),
    {
        -DEST_TAG_SPREAD_X <= self.dest_tag.x && self.dest_tag.x <= DEST_TAG_SPREAD_X && 0
            <= self.dest_tag.y && self.dest_tag.y <= DEST_TAG_SPREAD_Y && -DEST_TAG_SPREAD_Z
            <= self.dest_tag.z && self.dest_tag.z <= DEST_TAG_SPREAD_Z && -SIN_PHASE_SPREAD
            <= self.sin_phase && self.sin_phase <= SIN_PHASE_SPREAD
    }
}

/// A missile in flight.  Everything but `progress` is fixed at launch.
#[derive(Clone, Copy, Debug, PartialEq, Eq)]
pub struct Missile {
    /// How much of the flight is done; the flight is complete from `UNIT` on.
    pub progress: u64,
    /// Where the missile was launched.
    pub start: Vec3,
    /// The control point that shapes the curve near the start.
    pub start_tag: Vec3,
    /// Where the target stood at launch.
    pub target: Vec3,
    /// The control point that shapes the curve near the target.
    pub target_tag: Vec3,
    /// The phase of the wobble.
    pub sin_phase: i64,
}

/// What one tick shows of a missile: the point on its curve, and what the host needs
/// to add the wobble, whose sines the library does not compute.
#[derive(Clone, Copy, Debug, PartialEq, Eq)]
pub struct Placement {
    /// The point of the Bezier curve at the missile's progress.
    pub curve: Vec3,
    /// The amplitude of the wobble.
    pub envelope: i64,
    /// The angle whose sine displaces the missile along x.
    pub angle_x: i64,
    /// The angle whose sine displaces the missile along y.
    pub angle_y: i64,
    /// Whether the flight was complete when the tick began, so that the missile
    /// leaves once this placement is shown.
    pub retired: bool,
}

impl Missile {
    /// The values are small enough for the curve to be evaluated.
    pub open spec fn wf(self) -> bool {
        &&& self.progress <= PROGRESS_LIMIT
        &&& self.start.in_reach()
        &&& self.start_tag.in_reach()
        &&& self.target.in_reach()
        &&& self.target_tag.in_reach()
        &&& -SIN_PHASE_SPREAD <= self.sin_phase <= SIN_PHASE_SPREAD
    }

    /// The missile as launched from `shooter` at `target` with the random part `scatter`.
    pub open spec fn is_launch(self, shooter: Vec3, target: Vec3, scatter: Scatter) -> bool {
        &&& self.progress == 0
        &&& self.start == shooter
        &&& self.start_tag@ == shooter@.plus(Point3 { x: 0, y: START_TAG_LIFT as int, z: 0 })
        &&& self.target == target
        &&& self.target_tag@ == target@.plus(scatter.dest_tag@)
        &&& self.sin_phase == scatter.sin_phase
    }

    /// A launch from `shooter` at `target` with some random part in range: the
    /// progress is zero, the start is the shooter, the first control point stands
    /// eight units above it, the target is copied, and the second control point and
    /// the phase lie in the ranges they are drawn from.
    pub open spec fn is_random_launch(self, shooter: Vec3, target: Vec3) -> bool {
        &&& self.progress == 0
        &&& self.start == shooter
        &&& self.start_tag@ == shooter@.plus(Point3 { x: 0, y: START_TAG_LIFT as int, z: 0 })
        &&& self.target == target
        &&& scatter_in_range(self.target_tag@.minus(target@), self.sin_phase as int)
    }

    /// The flight is complete.
    pub open spec fn completed(self) -> bool {
        self.progress >= UNIT
    }

    /// The same missile `dt` later: `after` differs from it by the progress alone.
    pub open spec fn advances_to(self, after: Missile, dt: int) -> bool {
        &&& after.progress == self.progress + dt
        &&& after.start == self.start
        &&& after.start_tag == self.start_tag
        &&& after.target == self.target
        &&& after.target_tag == self.target_tag
        &&& after.sin_phase == self.sin_phase
    }

    /// The point of the cubic Bezier curve over `start`, `start_tag`, `target_tag`
    /// and `target` at the missile's progress.
    pub open spec fn curve_point(self) -> Point3 {
        let p = self.progress as int;
        Point3 {
            x: bezier_of(
                self.start.x as int,
                self.start_tag.x as int,
                self.target_tag.x as int,
                self.target.x as int,
                p,
            ),
            y: bezier_of(
                self.start.y as int,
                self.start_tag.y as int,
                self.target_tag.y as int,
                self.target.y as int,
                p,
            ),
            z: bezier_of(
                self.start.z as int,
                self.start_tag.z as int,
                self.target_tag.z as int,
                self.target.z as int,
                p,
            ),
        }
    }

    /// Where the missile is, given the sines of its two wobble angles: the point on
    /// the curve, displaced along x and y by the envelope times the sine.
    pub open spec fn position(self, sin_x: int, sin_y: int) -> Point3 {
        let e = envelope_of(self.progress as int);
        self.curve_point().plus(Point3 { x: wobble_of(e, sin_x), y: wobble_of(e, sin_y), z: 0 })
    }

    /// What a tick shows of this missile.
    pub open spec fn shown_as(self, p: Placement) -> bool {
        &&& p.curve@ == self.curve_point()
        &&& p.envelope == envelope_of(self.progress as int)
        &&& p.angle_x == wobble_angle_of(self.progress as int, self.sin_phase as int)
        &&& p.angle_y == wobble_angle_of(self.progress as int, self.sin_phase as int) + AXIS_SHIFT
        &&& p.retired == self.completed()
    }

    /// Tests [`Missile::wf`].
    pub fn is_wf(&self) -> (ok: bool)
        ensures
            ok == self.wf(),
    {
        self.progress <= PROGRESS_LIMIT && self.start.is_in_reach() && self.start_tag.is_in_reach()
            && self.target.is_in_reach() && self.target_tag.is_in_reach() && -SIN_PHASE_SPREAD
            <= self.sin_phase && self.sin_phase <= SIN_PHASE_SPREAD
    }

    /// Launches a missile from `shooter` at `target`.  The target's position is
    /// copied: the missile never looks at the target again.
    pub fn launch(shooter: Vec3, target: Vec3, scatter: Scatter) -> (m: Missile)
        requires
            shooter.in_world(),
            target.in_world(),
            scatter.in_range(),
        ensures
            m.is_launch(shooter, target, scatter),
            m.wf(),
    {
        Missile {
            progress: 0,
            start: shooter,
            start_tag: Vec3 { x: shooter.x, y: shooter.y + START_TAG_LIFT, z: shooter.z },
            target,
            target_tag: Vec3 {
                x: target.x + scatter.dest_tag.x,
                y: target.y + scatter.dest_tag.y,
                z: target.z + scatter.dest_tag.z,
            },
            sin_phase: scatter.sin_phase,
        }
    }

    /// Tests whether the flight is complete.
    pub fn is_complete(&self) -> (done: bool)
        ensures
            done == self.completed(),
    {
        self.progress >= UNIT as u64
    }

    /// Evaluates the curve and the wobble's parameters at the current progress.
    pub fn placement(&self) -> (p: Placement)
        requires
            self.wf(),
        ensures
            self.shown_as(p),
            p.wf(),
    {
        let p: u64 = self.progress;
        let angle: i64 = 8 * (p as i64) + self.sin_phase;
        Placement {
            curve: Vec3 {
                x: bezier(self.start.x, self.start_tag.x, self.target_tag.x, self.target.x, p),
                y: bezier(self.start.y, self.start_tag.y, self.target_tag.y, self.target.y, p),
                z: bezier(self.start.z, self.start_tag.z, self.target_tag.z, self.target.z, p),
            },
            envelope: envelope(p),
            angle_x: angle,
            angle_y: angle + AXIS_SHIFT,
            retired: self.is_complete(),
        }
    }

    /// Lets `dt` pass: the progress grows by `dt` and nothing else changes.
    pub fn advance(&mut self, dt: u32)
        requires
            old(self).progress + dt <= u64::MAX,
        ensures
            old(self).advances_to(*final(self), dt as int),
    {
        self.progress = self.progress + dt as u64;
    }
}

impl Placement {
    /// The values are small enough for the wobble to be added.
    pub open spec fn wf(self) -> bool {
        &&& self.curve.within(CURVE_LIMIT as int)
        &&& -ENVELOPE_LIMIT <= self.envelope <= ENVELOPE_LIMIT
    }

    /// The point on the curve displaced along x and y by the envelope times the sine.
    pub open spec fn displaced(self, sin_x: int, sin_y: int) -> Point3 {
        self.curve@.plus(
            Point3 {
                x: wobble_of(self.envelope as int, sin_x),
                y: wobble_of(self.envelope as int, sin_y),
                z: 0,
            },
        )
    }

    /// Adds the wobble to the point on the curve, given the sines of `angle_x` and
    /// `angle_y` in millionths.
    pub fn position(&self, sin_x: i64, sin_y: i64) -> (at: Vec3)
        requires
            self.wf(),
            -UNIT <= sin_x <= UNIT,
            -UNIT <= sin_y <= UNIT,
        ensures
            at@ == self.displaced(sin_x as int, sin_y as int),
    {
        Vec3 {
            x: self.curve.x + wobble(self.envelope, sin_x),
            y: self.curve.y + wobble(self.envelope, sin_y),
            z: self.curve.z,
        }
    }
}

/// What a tick shows of a missile, with the wobble added, is the missile's position.
pub proof fn lemma_placement_is_position(m: Missile, p: Placement, sin_x: int, sin_y: int)
    requires
        m.shown_as(p),
    ensures
        p.displaced(sin_x, sin_y) == m.position(sin_x, sin_y),
{
}

/// A missile at the start of its flight is at its start, and one whose progress is
/// exactly one is at its target, whatever the sines of its wobble are.
pub proof fn lemma_flight_ends(m: Missile, sin_x: int, sin_y: int)
    ensures
        m.progress == 0 ==> m.position(sin_x, sin_y) == m.start@,
        m.progress == UNIT ==> m.position(sin_x, sin_y) == m.target@,
{
    lemma_envelope_ends(sin_x);
    lemma_envelope_ends(sin_y);
    lemma_bezier_ends(
        m.start.x as int,
        m.start_tag.x as int,
        m.target_tag.x as int,
        m.target.x as int,
    );
    lemma_bezier_ends(
        m.start.y as int,
        m.start_tag.y as int,
        m.target_tag.y as int,
        m.target.y as int,
    );
    lemma_bezier_ends(
        m.start.z as int,
        m.start_tag.z as int,
        m.target_tag.z as int,
        m.target.z as int,
    );
}

} // verus!
