//! Topology of the drawn primitives: which projected points become which segments.
use crate::input::same_text;
use vstd::prelude::*;

verus! {

/// A drawable straight segment between two projected points, with its color.
#[derive(Clone, Copy, Debug)]
pub struct Segment<P, C> {
    pub start: P,
    pub end: P,
    pub color: C,
}

/// The segment from `a` to `b` painted in `c`.
pub open spec fn seg<P, C>(a: P, b: P, c: C) -> Segment<P, C> {
    Segment { start: a, end: b, color: c }
}

/// The edges of a closed polygon: vertex `i` to vertex `i + 1`, the last one back to the first.
/// A polygon of fewer than two vertices has no edges.
pub open spec fn closed_edges_spec<P, C>(pts: Seq<P>, c: C) -> Seq<Segment<P, C>> {
    if pts.len() < 2 {
        Seq::empty()
    } else {
        Seq::new(pts.len(), |i: int| seg(pts[i], pts[(i + 1) % (pts.len() as int)], c))
    }
}

/// Joins the vertices of a closed polygon into its edges.
pub fn closed_edges<P: Copy, C: Copy>(pts: &Vec<P>, color: C) -> (r: Vec<Segment<P, C>>)
    ensures
        r@ == closed_edges_spec(pts@, color),
{
    let n = pts.len();
    let mut r: Vec<Segment<P, C>> = Vec::new();
    if n < 2 {
        return r;
    }
    let mut i: usize = 0;
    while i < n
        invariant
            n == pts@.len(),
            n >= 2,
            i <= n,
            r@.len() == i,
            forall|k: int| 0 <= k < i ==> r@[k] == seg(pts@[k], pts@[(k + 1) % (n as int)], color),
        decreases n - i,
    {
        let next = if i + 1 == n { 0 } else { i + 1 };
        assert((i as int + 1) % (n as int) == next as int) by {
            if i + 1 == n {
                vstd::arithmetic::div_mod::lemma_mod_self_0(n as int);
            } else {
                vstd::arithmetic::div_mod::lemma_small_mod((i + 1) as nat, n as nat);
            }
        }
        let a = pts[i];
        let b = pts[next];
        r.push(Segment { start: a, end: b, color: color });
        i += 1;
    }
    assert(r@ =~= closed_edges_spec(pts@, color));
    r
}


/// Consecutive vertices of a broken line joined: `n` points give `n - 1` segments.
pub open spec fn strip_spec<P, C>(pts: Seq<P>, c: C) -> Seq<Segment<P, C>> {
    if pts.len() < 2 {
        Seq::empty()
    } else {
        Seq::new((pts.len() - 1) as nat, |i: int| seg(pts[i], pts[i + 1], c))
    }
}

/// Every strip turned into its segments, strip after strip.
pub open spec fn strips_spec<P, C>(strips: Seq<Seq<P>>, c: C) -> Seq<Segment<P, C>>
    decreases strips.len(),
{
    if strips.len() == 0 {
        Seq::empty()
    } else {
        strips_spec(strips.drop_last(), c) + strip_spec(strips.last(), c)
    }
}

/// Points taken two by two: point `2k` to point `2k + 1`, colored by entry `2k` of `colors`
/// where there is one and by `fallback` where there is none.
pub open spec fn pairs_spec<P, C>(pts: Seq<P>, colors: Seq<C>, fallback: C) -> Seq<Segment<P, C>> {
    Seq::new(
        pts.len() / 2,
        |k: int|
            seg(
                pts[2 * k],
                pts[2 * k + 1],
                if 2 * k < colors.len() {
                    colors[2 * k]
                } else {
                    fallback
                },
            ),
    )
}

/// The edges of a box whose top corners are `top` and bottom corners `bottom`, listed in the
/// same turning order: the top face alone, or, when `all_faces` holds, the top face, the bottom
/// face and the four vertical edges.
pub open spec fn box_spec<P, C>(top: Seq<P>, bottom: Seq<P>, all_faces: bool, c: C) -> Seq<
    Segment<P, C>,
> {
    if all_faces {
        closed_edges_spec(top, c) + closed_edges_spec(bottom, c) + Seq::new(
            top.len(),
            |i: int| seg(top[i], bottom[i], c),
        )
    } else {
        closed_edges_spec(top, c)
    }
}

/// The segments of one broken line.
pub fn strip_segments<P: Copy, C: Copy>(pts: &Vec<P>, color: C) -> (r: Vec<Segment<P, C>>)
    ensures
        r@ == strip_spec(pts@, color),
{
    let n = pts.len();
    let mut r: Vec<Segment<P, C>> = Vec::new();
    if n < 2 {
        return r;
    }
    let mut i: usize = 1;
    while i < n
        invariant
            n == pts@.len(),
            n >= 2,
            1 <= i <= n,
            r@.len() == i - 1,
            forall|k: int| 0 <= k < i - 1 ==> r@[k] == seg(pts@[k], pts@[k + 1], color),
        decreases n - i,
    {
        let a = pts[i - 1];
        let b = pts[i];
        r.push(Segment { start: a, end: b, color: color });
        i += 1;
    }
    assert(r@ =~= strip_spec(pts@, color));
    r
}

/// The segments of several broken lines, one after the other.
pub fn strips_segments<P: Copy, C: Copy>(strips: &Vec<Vec<P>>, color: C) -> (r: Vec<Segment<P, C>>)
    ensures
        r@ == strips_spec(strips@.map_values(|s: Vec<P>| s@), color),
{
    let ghost views = strips@.map_values(|s: Vec<P>| s@);
    let mut r: Vec<Segment<P, C>> = Vec::new();
    let mut i: usize = 0;
    while i < strips.len()
        invariant
            views == strips@.map_values(|s: Vec<P>| s@),
            i <= strips@.len(),
            r@ == strips_spec(views.take(i as int), color),
        decreases strips@.len() - i,
    {
        let mut part = strip_segments(&strips[i], color);
        assert(views.take(i + 1).drop_last() =~= views.take(i as int));
        r.append(&mut part);
        i += 1;
    }
    assert(views.take(strips@.len() as int) =~= views);
    r
}

/// The segments of a list of point pairs, each colored by the first of its two color entries.
/// An odd number of points is malformed and gives no segment at all.
pub fn paired_segments<P: Copy, C: Copy>(pts: &Vec<P>, colors: &Vec<C>, fallback: C) -> (r: Vec<
    Segment<P, C>,
>)
    ensures
        pts@.len() % 2 == 0 ==> r@ == pairs_spec(pts@, colors@, fallback),
        pts@.len() % 2 == 1 ==> r@.len() == 0,
{
    let mut r: Vec<Segment<P, C>> = Vec::new();
    if pts.len() % 2 == 1 {
        return r;
    }
    let n = pts.len();
    let mut i: usize = 0;
    while i < n
        invariant
            n == pts@.len(),
            n % 2 == 0,
            i <= n,
            i % 2 == 0,
            r@.len() * 2 == i,
            forall|j: int|
                0 <= j < r@.len() ==> r@[j] == seg(
                    pts@[2 * j],
                    pts@[2 * j + 1],
                    if 2 * j < colors@.len() {
                        colors@[2 * j]
                    } else {
                        fallback
                    },
                ),
        decreases n - i,
    {
        let a = pts[i];
        let b = pts[i + 1];
        let c = if i < colors.len() {
            colors[i]
        } else {
            fallback
        };
        r.push(Segment { start: a, end: b, color: c });
        i += 2;
    }
    assert(r@ =~= pairs_spec(pts@, colors@, fallback));
    r
}

/// The visible edges of a box: the top face alone when it lies flat, all twelve edges otherwise.
pub fn box_segments<P: Copy, C: Copy>(top: &Vec<P>, bottom: &Vec<P>, all_faces: bool, color: C) -> (r:
    Vec<Segment<P, C>>)
    requires
        top@.len() == 4,
        bottom@.len() == 4,
    ensures
        r@ == box_spec(top@, bottom@, all_faces, color),
        r@.len() == if all_faces { 12int } else { 4int },
{
    let mut r = closed_edges(top, color);
    if all_faces {
        let mut lower = closed_edges(bottom, color);
        r.append(&mut lower);
        let ghost faces = r@;
        let mut i: usize = 0;
        while i < 4
            invariant
                top@.len() == 4,
                bottom@.len() == 4,
                i <= 4,
                faces.len() == 8,
                r@.len() == 8 + i,
                r@.subrange(0, 8) == faces,
                forall|k: int| 0 <= k < i ==> r@[8 + k] == seg(top@[k], bottom@[k], color),
            decreases 4 - i,
        {
            let a = top[i];
            let b = bottom[i];
            r.push(Segment { start: a, end: b, color: color });
            assert(r@.subrange(0, 8) =~= faces);
            i += 1;
        }
        assert(r@ =~= box_spec(top@, bottom@, all_faces, color));
    }
    r
}

/// Closing a polygon joins every edge to the next: for `n >= 2` vertices there are exactly `n`
/// edges, and edge `i` ends where edge `(i + 1) mod n` starts.
pub proof fn lemma_closed_edges_chain<P, C>(pts: Seq<P>, c: C)
    requires
        pts.len() >= 2,
    ensures
        closed_edges_spec(pts, c).len() == pts.len(),
        forall|i: int|
            0 <= i < pts.len() ==> #[trigger] closed_edges_spec(pts, c)[i].end == closed_edges_spec(
                pts,
                c,
            )[(i + 1) % (pts.len() as int)].start,
{
    let n = pts.len() as int;
    assert forall|i: int| 0 <= i < n implies #[trigger] closed_edges_spec(pts, c)[i].end
        == closed_edges_spec(pts, c)[(i + 1) % n].start by {
        let j = (i + 1) % n;
        assert(0 <= j < n) by {
            vstd::arithmetic::div_mod::lemma_mod_bound(i + 1, n);
        }
    }
}


/// Whether footprint rows can be read as points: at least one row, each with two coordinates.
pub open spec fn footprint_rows_ok<P>(rows: Seq<Vec<P>>) -> bool {
    rows.len() > 0 && forall|i: int| 0 <= i < rows.len() ==> (#[trigger] rows[i])@.len() >= 2
}

fn rows_to_points<P: Copy>(rows: &Vec<Vec<P>>) -> (r: Option<Vec<(P, P)>>)
    ensures
        footprint_rows_ok(rows@) ==> (r matches Some(v) && v@ == Seq::new(
            rows@.len(),
            |i: int| (rows@[i]@[0], rows@[i]@[1]),
        )),
        !footprint_rows_ok(rows@) ==> r is None,
{
    if rows.len() == 0 {
        return None;
    }
    let mut out: Vec<(P, P)> = Vec::new();
    let mut i: usize = 0;
    while i < rows.len()
        invariant
            i <= rows@.len(),
            out@.len() == i,
            forall|k: int| 0 <= k < i ==> (#[trigger] rows@[k])@.len() >= 2,
            forall|k: int| 0 <= k < i ==> #[trigger] out@[k] == (rows@[k]@[0], rows@[k]@[1]),
        decreases rows@.len() - i,
    {
        let row = &rows[i];
        if row.len() < 2 {
            assert(rows@[i as int]@.len() < 2);
            return None;
        }
        let a = row[0];
        let b = row[1];
        out.push((a, b));
        i += 1;
    }
    assert(out@ =~= Seq::new(rows@.len(), |i: int| (rows@[i]@[0], rows@[i]@[1])));
    Some(out)
}

/// The footprint read from its parameter, one point per row from the row's first two entries;
/// the fallback when the parameter is absent, empty or has a row too short.
pub fn resolve_footprint<P: Copy>(param: Option<Vec<Vec<P>>>, fallback: Vec<(P, P)>) -> (r: Vec<(P, P)>)
    ensures
        param is None ==> r@ == fallback@,
        param matches Some(rows) ==> (footprint_rows_ok(rows@) ==> r@ == Seq::new(
            rows@.len(),
            |i: int| (rows@[i]@[0], rows@[i]@[1]),
        )) && (!footprint_rows_ok(rows@) ==> r@ == fallback@),
{
    match param {
        None => fallback,
        Some(rows) => match rows_to_points(&rows) {
            Some(v) => v,
            None => fallback,
        },
    }
}

/// How a pose is drawn.
#[derive(Clone, Copy, Debug, PartialEq, Eq, Structural)]
pub enum PoseStyle {
    /// A shaft along the pose's heading and two head strokes.
    Arrow,
    /// The three unit axes of the pose.
    Axes,
    /// Consecutive poses joined, for paths only.
    Line,
}

/// Where poses come from: one pose, an array of poses, or a path.
#[derive(Clone, Copy, Debug, PartialEq, Eq, Structural)]
pub enum PoseSource {
    Single,
    Array,
    Path,
}

/// The drawing style named `style` for poses from `source`; `None` draws nothing.
pub fn pose_style(source: PoseSource, style: &str) -> (r: Option<PoseStyle>)
    ensures
        r == (if style@ == "arrow"@ {
            Some(PoseStyle::Arrow)
        } else if style@ == "axis"@ || style@ == "axes"@ {
            Some(PoseStyle::Axes)
        } else if style@ == "line"@ && source == PoseSource::Path {
            Some(PoseStyle::Line)
        } else {
            None
        }),
{
    if same_text(style, "arrow") {
        Some(PoseStyle::Arrow)
    } else if same_text(style, "axis") || same_text(style, "axes") {
        Some(PoseStyle::Axes)
    } else if same_text(style, "line") && source == PoseSource::Path {
        Some(PoseStyle::Line)
    } else {
        None
    }
}

/// An arrow: the shaft from `tail` to `tip`, then the two head strokes from `tip`.
pub fn arrow_segments<P: Copy, C: Copy>(tail: P, tip: P, left: P, right: P, color: C) -> (r: Vec<
    Segment<P, C>,
>)
    ensures
        r@ == seq![seg(tail, tip, color), seg(tip, left, color), seg(tip, right, color)],
{
    let mut r: Vec<Segment<P, C>> = Vec::new();
    r.push(Segment { start: tail, end: tip, color });
    r.push(Segment { start: tip, end: left, color });
    r.push(Segment { start: tip, end: right, color });
    assert(r@ =~= seq![seg(tail, tip, color), seg(tip, left, color), seg(tip, right, color)]);
    r
}

/// The axes of a frame: from `origin` to the ends of its x, y and z axes, each in its color.
pub fn axes_segments<P: Copy, C: Copy>(origin: P, ends: [P; 3], colors: [C; 3]) -> (r: Vec<
    Segment<P, C>,
>)
    ensures
        r@ == seq![
            seg(origin, ends@[0], colors@[0]),
            seg(origin, ends@[1], colors@[1]),
            seg(origin, ends@[2], colors@[2]),
        ],
{
    let mut r: Vec<Segment<P, C>> = Vec::new();
    r.push(Segment { start: origin, end: ends[0], color: colors[0] });
    r.push(Segment { start: origin, end: ends[1], color: colors[1] });
    r.push(Segment { start: origin, end: ends[2], color: colors[2] });
    assert(r@ =~= seq![
        seg(origin, ends@[0], colors@[0]),
        seg(origin, ends@[1], colors@[1]),
        seg(origin, ends@[2], colors@[2]),
    ]);
    r
}

} // verus!
