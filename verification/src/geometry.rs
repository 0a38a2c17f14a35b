//! Slant-range arc projector and viewing-geometry computation.
//!
//! Distances are fixed-point integers in a caller-chosen unit; angles are
//! integer centidegrees (hundredths of a degree).  The projector decides which
//! primitives are drawn, their labels and styles, and the exact angular
//! sampling of every arc; the rendering layer evaluates the trigonometric
//! part of each primitive (the tangent of a ray's angle, the sine and cosine
//! of each sampled arc angle) and draws the resulting polylines.

use vstd::prelude::*;
use vstd::string::StringExecFns;

verus! {

/// A quarter turn, in centidegrees: the angle from straight down to
/// horizontal.
pub const FULL_QUADRANT_CDEG: i64 = 9000;

/// Half a turn, in centidegrees: the largest value an arccosine can take.
pub const HALF_TURN_CDEG: i64 = 18000;

/// Largest magnitude of an angle accepted by the arc sampler; far beyond any
/// physically meaningful viewing angle, it only keeps the fixed-point
/// arithmetic inside `i64`.
pub const ANGLE_LIMIT_CDEG: i64 = 1_000_000_000;

/// Number of points sampled along an arc.
pub const ARC_SAMPLES: usize = 101;

/// Opaque color token: white.
pub const COLOR_WHITE: u32 = 0xFFFFFF;

/// Opaque color token: dark green.
pub const COLOR_DARK_GREEN: u32 = 0x006400;

/// Opaque color token: blue.
pub const COLOR_BLUE: u32 = 0x0000FF;

/// Opaque color token: yellow.
pub const COLOR_YELLOW: u32 = 0xFFFF00;

/// Whether the frame's view angle is measured from the horizontal (look
/// angle) or from the vertical (depression angle).  Both conventions reach
/// the projector through the same tangent formula; the flag records the
/// caller's intent for the consumer instead of assuming the two coincide.
#[derive(Clone, Copy, Debug, PartialEq, Eq, Structural)]
pub enum AngleConvention {
    LookAngle,
    DepressionAngle,
}

/// One immutable snapshot of the viewing geometry, passed by value into the
/// projector on every parameter change.
///
/// `along_track` and `height` place the carrier above the ground plane;
/// `view_angle` is in centidegrees under `convention`; the two bound pairs
/// are optional: an aperture lobe `(min, max)` in centidegrees and a range
/// window `(near, far)` in ground-plane distance units.
pub struct GeometryFrame {
    pub along_track: i64,
    pub height: i64,
    pub view_angle: i64,
    pub convention: AngleConvention,
    pub aperture_bounds: Option<(i64, i64)>,
    pub range_window_bounds: Option<(i64, i64)>,
}

/// Angular extent of a ground-range arc: either the full quarter circle from
/// straight down to horizontal, or an arc clipped where the circle crosses
/// the ground plane, at `90° - acos(center_y / radius)` from straight down.
#[derive(Clone, Copy, Debug, PartialEq, Eq, Structural)]
pub enum ArcExtent {
    FullQuadrant,
    GroundClipped,
}

/// Geometric body of a primitive.
///
/// `Segments` is a ready polyline of fixed-point points.  The other shapes
/// carry the angles whose trigonometric evaluation the rendering layer
/// performs: a `GroundRay` runs from its origin to the ground intersection
/// `x = origin.0 + origin.1 * tan(angle)`, a `Lobe` is the V-shaped polyline
/// ground-intersection at `min_angle` → apex → ground-intersection at
/// `max_angle`, and a `GroundArc` is the arc of the given radius around its
/// center, spanning its extent from straight down.
pub enum Shape {
    Segments(Vec<(i64, i64)>),
    GroundRay { origin: (i64, i64), angle: i64 },
    Lobe { apex: (i64, i64), min_angle: i64, max_angle: i64 },
    GroundArc { center: (i64, i64), radius: i64, extent: ArcExtent },
}

/// One labeled, styled primitive for the rendering layer.
pub struct Primitive {
    pub label: String,
    pub dashed: bool,
    pub color: u32,
    pub shape: Shape,
}

/// The extent an arc of `radius` around a center at height `center_y` gets:
/// the full quarter circle when the circle stays at or above the ground
/// plane all the way to the horizontal, a clipped arc otherwise.
pub open spec fn spec_extent(radius: int, center_y: int) -> ArcExtent {
    if radius <= center_y {
        ArcExtent::FullQuadrant
    } else {
        ArcExtent::GroundClipped
    }
}

/// Decides the angular extent of a ground-range arc.
pub fn arc_extent(radius: i64, center_y: i64) -> (e: ArcExtent)
    ensures
        e == spec_extent(radius as int, center_y as int),
{
    if radius <= center_y {
        ArcExtent::FullQuadrant
    } else {
        ArcExtent::GroundClipped
    }
}

/// End angle of a ground-clipped arc, measured from straight down, given the
/// angle `acos(center_y / radius)` in centidegrees: the arc stops at
/// `90° - acos(center_y / radius)`, where the circle crosses the ground
/// plane.
pub fn clipped_end_angle(ground_cross: i64) -> (r: i64)
    requires
        0 <= ground_cross <= HALF_TURN_CDEG,
    ensures
        r == FULL_QUADRANT_CDEG - ground_cross,
{
    FULL_QUADRANT_CDEG - ground_cross
}

/// Sample `i` of an arc from `start` to `end` (both in centidegrees), in
/// hundredths of a centidegree: the angles advance in one hundred equal
/// steps, so sample `i` sits at `start + i * (end - start) / 100`.
pub open spec fn arc_sample(start: int, end: int, i: int) -> int {
    100 * start + i * (end - start)
}

/// The 101 equally spaced sample angles of an arc from `start` to `end`
/// centidegrees, in hundredths of a centidegree.
pub fn arc_angles(start: i64, end: i64) -> (r: Vec<i64>)
    requires
        -ANGLE_LIMIT_CDEG <= start <= ANGLE_LIMIT_CDEG,
        -ANGLE_LIMIT_CDEG <= end <= ANGLE_LIMIT_CDEG,
    ensures
        r@.len() == ARC_SAMPLES,
        forall|i: int| 0 <= i < ARC_SAMPLES ==> r@[i] == arc_sample(start as int, end as int, i),
{
    let mut r: Vec<i64> = Vec::new();
    let mut i: i64 = 0;
    while i <= 100
        invariant
            -ANGLE_LIMIT_CDEG <= start <= ANGLE_LIMIT_CDEG,
            -ANGLE_LIMIT_CDEG <= end <= ANGLE_LIMIT_CDEG,
            0 <= i <= 101,
            r@.len() == i,
            forall|j: int| 0 <= j < i ==> r@[j] == arc_sample(start as int, end as int, j),
        decreases 101 - i,
    {
        proof {
            assert(-200_000_000_000 <= i * (end as int - start as int) <= 200_000_000_000)
                by (nonlinear_arith)
                requires
                    0 <= i <= 100,
                    -2_000_000_000 <= end as int - start as int <= 2_000_000_000,
            ;
        }
        r.push(100 * start + i * (end - start));
        i += 1;
    }
    r
}

/// Whether a frame makes the projector emit range arcs: the range window
/// must be present and its near bound strictly inside its far bound.  A
/// degenerate or crossed window is omitted silently, not an error.
pub open spec fn arcs_emitted(f: GeometryFrame) -> bool {
    f.range_window_bounds matches Some(b) && b.0 < b.1
}

/// The dashed white reference line from the ground origin up to the carrier.
pub open spec fn carrier_prim_ok(f: GeometryFrame, pr: Primitive) -> bool {
    &&& pr.label@ == "Carrier"@
    &&& pr.dashed
    &&& pr.color == COLOR_WHITE
    &&& pr.shape matches Shape::Segments(pts) && pts@ == seq![
        (0i64, 0i64),
        (f.along_track, f.height),
    ]
}

/// The solid green view ray from the carrier to the ground at the frame's
/// view angle.
pub open spec fn view_ray_prim_ok(f: GeometryFrame, pr: Primitive) -> bool {
    &&& pr.label@ == "Target"@
    &&& !pr.dashed
    &&& pr.color == COLOR_DARK_GREEN
    &&& pr.shape matches Shape::GroundRay { origin, angle } && origin == (
        f.along_track,
        f.height,
    ) && angle == f.view_angle
}

/// The solid blue aperture lobe between the given bounds, apex at the
/// carrier.  The bounds are passed through as given: a crossed pair is
/// rendered as-is.
pub open spec fn lobe_prim_ok(f: GeometryFrame, lo: int, hi: int, pr: Primitive) -> bool {
    &&& pr.label@ == "Lobe"@
    &&& !pr.dashed
    &&& pr.color == COLOR_BLUE
    &&& pr.shape matches Shape::Lobe { apex, min_angle, max_angle } && apex == (
        f.along_track,
        f.height,
    ) && min_angle == lo && max_angle == hi
}

/// One yellow range arc of the given radius centered at the carrier, with
/// the extent the radius and the carrier height demand; the near arc is
/// solid, the far arc dashed.
pub open spec fn range_arc_prim_ok(
    f: GeometryFrame,
    radius: int,
    dashed: bool,
    pr: Primitive,
) -> bool {
    &&& pr.label@ == "RX Window"@
    &&& pr.dashed == dashed
    &&& pr.color == COLOR_YELLOW
    &&& pr.shape matches Shape::GroundArc { center, radius: r, extent } && center == (
        f.along_track,
        f.height,
    ) && r == radius && extent == spec_extent(radius, f.height as int)
}

/// Full description of the projector's output: the carrier line and the view
/// ray always come first, then the aperture lobe when aperture bounds are
/// present, then the near and far range arcs when the range window is
/// present and proper; nothing else is emitted.
pub open spec fn project_post(f: GeometryFrame, out: Seq<Primitive>) -> bool {
    let lobes: int = if f.aperture_bounds is Some {
        1
    } else {
        0
    };
    let arcs: int = if arcs_emitted(f) {
        2
    } else {
        0
    };
    &&& out.len() == 2 + lobes + arcs
    &&& carrier_prim_ok(f, out[0])
    &&& view_ray_prim_ok(f, out[1])
    &&& f.aperture_bounds matches Some(b) ==> lobe_prim_ok(f, b.0 as int, b.1 as int, out[2])
    &&& arcs_emitted(f) ==> {
        let w = f.range_window_bounds->0;
        &&& range_arc_prim_ok(f, w.0 as int, false, out[2 + lobes])
        &&& range_arc_prim_ok(f, w.1 as int, true, out[3 + lobes])
    }
}

/// Projects one geometry frame into the ordered list of primitives the
/// rendering layer draws: the carrier reference line, the view ray, the
/// optional aperture lobe, and — when the range window is present with
/// `near < far` — the near (solid) and far (dashed) ground-range arcs.
pub fn project(frame: &GeometryFrame) -> (out: Vec<Primitive>)
    ensures
        project_post(*frame, out@),
{
    let mut out: Vec<Primitive> = Vec::new();

    let mut carrier_pts: Vec<(i64, i64)> = Vec::new();
    carrier_pts.push((0, 0));
    carrier_pts.push((frame.along_track, frame.height));
    proof {
        assert(carrier_pts@ =~= seq![(0i64, 0i64), (frame.along_track, frame.height)]);
    }
    out.push(
        Primitive {
            label: String::from_str("Carrier"),
            dashed: true,
            color: COLOR_WHITE,
            shape: Shape::Segments(carrier_pts),
        },
    );

    out.push(
        Primitive {
            label: String::from_str("Target"),
            dashed: false,
            color: COLOR_DARK_GREEN,
            shape: Shape::GroundRay {
                origin: (frame.along_track, frame.height),
                angle: frame.view_angle,
            },
        },
    );

    if let Some((lo, hi)) = frame.aperture_bounds {
        out.push(
            Primitive {
                label: String::from_str("Lobe"),
                dashed: false,
                color: COLOR_BLUE,
                shape: Shape::Lobe {
                    apex: (frame.along_track, frame.height),
                    min_angle: lo,
                    max_angle: hi,
                },
            },
        );
    }

    if let Some((near, far)) = frame.range_window_bounds {
        if near < far {
            out.push(
                Primitive {
                    label: String::from_str("RX Window"),
                    dashed: false,
                    color: COLOR_YELLOW,
                    shape: Shape::GroundArc {
                        center: (frame.along_track, frame.height),
                        radius: near,
                        extent: arc_extent(near, frame.height),
                    },
                },
            );
            out.push(
                Primitive {
                    label: String::from_str("RX Window"),
                    dashed: true,
                    color: COLOR_YELLOW,
                    shape: Shape::GroundArc {
                        center: (frame.along_track, frame.height),
                        radius: far,
                        extent: arc_extent(far, frame.height),
                    },
                },
            );
        }
    }
    out
}

/// Consecutive arc samples are exactly one hundredth of the angular span
/// apart: there are no gaps and no irregular steps.
pub proof fn lemma_arc_uniform_step(start: int, end: int, i: int)
    ensures
        arc_sample(start, end, i + 1) - arc_sample(start, end, i) == end - start,
{
    assert((i + 1) * (end - start) == i * (end - start) + (end - start)) by (nonlinear_arith);
}

/// Every arc sample lies between the start and the end angle.  With the
/// start straight down and the end at or below the angle where the circle
/// crosses the ground plane, this confines the whole sampled arc to the
/// at-or-above-ground half-plane.
pub proof fn lemma_arc_samples_within_extent(start: int, end: int, i: int)
    requires
        start <= end,
        0 <= i < ARC_SAMPLES,
    ensures
        100 * start <= arc_sample(start, end, i) <= 100 * end,
{
    assert(0 <= i * (end - start) <= 100 * (end - start)) by (nonlinear_arith)
        requires
            0 <= i <= 100,
            end - start >= 0,
    ;
}

} // verus!
