//! Point-in-polygon hit testing by the even-odd (ray-casting) rule,
//! over integer screen/world coordinates.

use vstd::prelude::*;

verus! {

/// A point in the integer coordinate grid shared by polygons and the pointer.
#[derive(Clone, Copy, PartialEq, Eq, Structural, Debug)]
pub struct Point {
    pub x: i32,
    pub y: i32,
}

/// Index of the vertex preceding vertex `i` in a polygon of `n` vertices,
/// wrapping from vertex 0 back to vertex `n - 1`.
pub open spec fn prev_vertex(n: int, i: int) -> int {
    if i == 0 {
        n - 1
    } else {
        i - 1
    }
}

/// Whether the polygon edge between `vi` and `vj` crosses the horizontal ray
/// cast rightward from `p`: exactly one endpoint lies strictly above `p.y`,
/// and the x-coordinate where the edge meets the ray's height is strictly
/// greater than `p.x`.
///
/// That x-coordinate is `vi.x + (vj.x - vi.x) * (p.y - vi.y) / (vj.y - vi.y)`;
/// the comparison with `p.x` is stated exactly by cross-multiplication, with
/// the inequality flipped when the denominator is negative. The denominator
/// is nonzero whenever the endpoints straddle the ray's height.
pub open spec fn edge_crosses(p: Point, vi: Point, vj: Point) -> bool {
    let dy = vj.y as int - vi.y as int;
    let lhs = (p.x as int - vi.x as int) * dy;
    let rhs = (vj.x as int - vi.x as int) * (p.y as int - vi.y as int);
    ((vi.y > p.y) != (vj.y > p.y)) && if dy >= 0 {
        lhs < rhs
    } else {
        lhs > rhs
    }
}

/// Even-odd parity of ray crossings over the first `i` edges of the polygon
/// `vs`, where edge `k` connects vertex `k` to its preceding vertex.
pub open spec fn crossings_upto(vs: Seq<Point>, p: Point, i: int) -> bool
    decreases i,
{
    if i <= 0 {
        false
    } else {
        crossings_upto(vs, p, i - 1) != edge_crosses(
            p,
            vs[i - 1],
            vs[prev_vertex(vs.len() as int, i - 1)],
        )
    }
}

/// The even-odd rule: `p` lies inside the polygon `vs` iff the rightward ray
/// from `p` crosses an odd number of polygon edges.
pub open spec fn polygon_contains(vs: Seq<Point>, p: Point) -> bool {
    crossings_upto(vs, p, vs.len() as int)
}

/// Law: the hit test is deterministic and side-effect-free. Its result is
/// pinned to `polygon_contains`, a function of the polygon and the point
/// alone, so any two results for the same inputs agree.
pub proof fn lemma_contains_deterministic(vs: Seq<Point>, p: Point, r1: bool, r2: bool)
    requires
        r1 == polygon_contains(vs, p),
        r2 == polygon_contains(vs, p),
    ensures
        r1 == r2,
{
}

proof fn lemma_edge_not_crossed_right_of(p: Point, vi: Point, vj: Point)
    requires
        vi.x <= p.x,
        vj.x <= p.x,
    ensures
        !edge_crosses(p, vi, vj),
{
    if (vi.y > p.y) != (vj.y > p.y) {
        let dy = vj.y as int - vi.y as int;
        let run_to_p = p.x as int - vi.x as int;
        let dx = vj.x as int - vi.x as int;
        let rise_to_p = p.y as int - vi.y as int;
        if dy >= 0 {
            assert(run_to_p * dy >= dx * rise_to_p) by (nonlinear_arith)
                requires
                    run_to_p >= 0,
                    run_to_p >= dx,
                    0 <= rise_to_p < dy,
            ;
        } else {
            assert(run_to_p * dy <= dx * rise_to_p) by (nonlinear_arith)
                requires
                    run_to_p >= 0,
                    run_to_p >= dx,
                    dy <= rise_to_p <= -1,
            ;
        }
    }
}

proof fn lemma_edge_crossed_left_of(p: Point, vi: Point, vj: Point)
    requires
        p.x < vi.x,
        p.x < vj.x,
        (vi.y > p.y) != (vj.y > p.y),
    ensures
        edge_crosses(p, vi, vj),
{
    let dy = vj.y as int - vi.y as int;
    let run_to_p = p.x as int - vi.x as int;
    let dx = vj.x as int - vi.x as int;
    let rise_to_p = p.y as int - vi.y as int;
    if dy >= 0 {
        assert(run_to_p * dy < dx * rise_to_p) by (nonlinear_arith)
            requires
                run_to_p <= -1,
                run_to_p < dx,
                0 <= rise_to_p < dy,
        ;
    } else {
        assert(run_to_p * dy > dx * rise_to_p) by (nonlinear_arith)
            requires
                run_to_p <= -1,
                run_to_p < dx,
                dy <= rise_to_p <= -1,
        ;
    }
}

proof fn lemma_no_crossings_upto(vs: Seq<Point>, p: Point, i: int)
    requires
        i <= vs.len(),
        forall|k: int|
            0 <= k < vs.len() ==> !edge_crosses(p, vs[k], vs[prev_vertex(vs.len() as int, k)]),
    ensures
        !crossings_upto(vs, p, i),
    decreases i,
{
    if i > 0 {
        lemma_no_crossings_upto(vs, p, i - 1);
    }
}

proof fn lemma_crossings_telescope(vs: Seq<Point>, p: Point, i: int)
    requires
        1 <= i <= vs.len(),
        forall|k: int|
            0 <= k < vs.len() ==> edge_crosses(p, vs[k], vs[prev_vertex(vs.len() as int, k)]) == ((
            vs[k].y > p.y) != (vs[prev_vertex(vs.len() as int, k)].y > p.y)),
    ensures
        crossings_upto(vs, p, i) == ((vs[i - 1].y > p.y) != (vs[vs.len() - 1].y > p.y)),
    decreases i,
{
    assert(edge_crosses(p, vs[i - 1], vs[prev_vertex(vs.len() as int, i - 1)]) == ((vs[i - 1].y
        > p.y) != (vs[prev_vertex(vs.len() as int, i - 1)].y > p.y)));
    if i > 1 {
        lemma_crossings_telescope(vs, p, i - 1);
    } else {
        assert(!crossings_upto(vs, p, 0));
        assert(prev_vertex(vs.len() as int, 0) == vs.len() - 1);
    }
}

/// Law: a point outside the polygon's bounding box lies outside the polygon.
/// Each disjunct of the precondition places `p` clear of the polygon on one
/// side: at or right of every vertex, strictly left of every vertex, at or
/// above the height of every vertex, or strictly below every vertex.
pub proof fn lemma_outside_bounding_box(vs: Seq<Point>, p: Point)
    requires
        ({
            ||| forall|k: int| 0 <= k < vs.len() ==> (#[trigger] vs[k]).x <= p.x
            ||| forall|k: int| 0 <= k < vs.len() ==> p.x < (#[trigger] vs[k]).x
            ||| forall|k: int| 0 <= k < vs.len() ==> (#[trigger] vs[k]).y <= p.y
            ||| forall|k: int| 0 <= k < vs.len() ==> p.y < (#[trigger] vs[k]).y
        }),
    ensures
        !polygon_contains(vs, p),
{
    let n = vs.len() as int;
    if n == 0 {
        // an empty vertex list has no edges and no crossings
    } else if forall|k: int| 0 <= k < vs.len() ==> (#[trigger] vs[k]).x <= p.x {
        assert forall|k: int| 0 <= k < vs.len() implies !edge_crosses(
            p,
            vs[k],
            vs[prev_vertex(n, k)],
        ) by {
            lemma_edge_not_crossed_right_of(p, vs[k], vs[prev_vertex(n, k)]);
        }
        lemma_no_crossings_upto(vs, p, n);
    } else if forall|k: int| 0 <= k < vs.len() ==> p.x < (#[trigger] vs[k]).x {
        assert forall|k: int| 0 <= k < vs.len() implies edge_crosses(
            p,
            vs[k],
            vs[prev_vertex(n, k)],
        ) == ((vs[k].y > p.y) != (vs[prev_vertex(n, k)].y > p.y)) by {
            if (vs[k].y > p.y) != (vs[prev_vertex(n, k)].y > p.y) {
                lemma_edge_crossed_left_of(p, vs[k], vs[prev_vertex(n, k)]);
            }
        }
        // the straddle flags telescope around the closed polygon, so the
        // full crossing count has even parity
        lemma_crossings_telescope(vs, p, n);
    } else {
        // no edge has exactly one endpoint strictly above the ray's height
        assert forall|k: int| 0 <= k < vs.len() implies !edge_crosses(
            p,
            vs[k],
            vs[prev_vertex(n, k)],
        ) by {
            assert(0 <= prev_vertex(n, k) < vs.len());
        }
        lemma_no_crossings_upto(vs, p, n);
    }
}

/// Ray-casting hit test: walks every edge of the polygon and toggles an
/// "inside" flag on each edge that crosses the rightward ray from `p`.
///
/// Points exactly on an edge or vertex get whichever classification the
/// even-odd rule yields; the result is a pure function of the inputs, so
/// repeated calls agree.
pub fn point_in_polygon(vertices: &Vec<Point>, p: Point) -> (r: bool)
    requires
        vertices@.len() >= 3,
    ensures
        r == polygon_contains(vertices@, p),
{
    let n = vertices.len();
    let mut inside = false;
    let mut j: usize = n - 1;
    let mut i: usize = 0;
    while i < n
        invariant
            3 <= n == vertices@.len(),
            i <= n,
            j == prev_vertex(n as int, i as int),
            inside == crossings_upto(vertices@, p, i as int),
        decreases n - i,
    {
        let vi = vertices[i];
        let vj = vertices[j];
        if (vi.y > p.y) != (vj.y > p.y) {
            let run_to_p: i128 = p.x as i128 - vi.x as i128;
            let dy: i128 = vj.y as i128 - vi.y as i128;
            let dx: i128 = vj.x as i128 - vi.x as i128;
            let rise_to_p: i128 = p.y as i128 - vi.y as i128;
            proof {
                assert(-0x1_0000_0000_0000_0000 < run_to_p * dy < 0x1_0000_0000_0000_0000)
                    by (nonlinear_arith)
                    requires
                        -0x1_0000_0000 < run_to_p < 0x1_0000_0000,
                        -0x1_0000_0000 < dy < 0x1_0000_0000,
                ;
                assert(-0x1_0000_0000_0000_0000 < dx * rise_to_p < 0x1_0000_0000_0000_0000)
                    by (nonlinear_arith)
                    requires
                        -0x1_0000_0000 < dx < 0x1_0000_0000,
                        -0x1_0000_0000 < rise_to_p < 0x1_0000_0000,
                ;
            }
            let lhs: i128 = run_to_p * dy;
            let rhs: i128 = dx * rise_to_p;
            let crossed = if dy >= 0 {
                lhs < rhs
            } else {
                lhs > rhs
            };
            if crossed {
                inside = !inside;
            }
        }
        j = i;
        i = i + 1;
    }
    inside
}

} // verus!
