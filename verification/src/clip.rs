use vstd::prelude::*;

verus! {

/// One output vertex of a Sutherland-Hodgman pass over a polygon.
#[derive(Clone, Copy, PartialEq, Eq, Debug)]
pub enum ClipStep {
    /// Keep input vertex `i` as it is.
    Keep(usize),
    /// The edge from vertex `from` to vertex `to` crosses the clip line: emit
    /// the point where it crosses.
    Cut(usize, usize),
}

/// A side of an axis-aligned clip rectangle `[x0, y0, x1, y1]`.
#[derive(Clone, Copy, PartialEq, Eq, Debug)]
pub enum RectSide {
    Left,
    Right,
    Top,
    Bottom,
}

impl RectSide {
    /// Whether the kept side is at or above the bound (left and top sides).
    pub fn keeps_greater(&self) -> (r: bool)
        ensures
            r <==> (*self == RectSide::Left || *self == RectSide::Top),
    {
        match self {
            RectSide::Left => true,
            RectSide::Right => false,
            RectSide::Top => true,
            RectSide::Bottom => false,
        }
    }

    /// Whether the side bounds the x coordinate (left and right sides).
    pub fn uses_x(&self) -> (r: bool)
        ensures
            r <==> (*self == RectSide::Left || *self == RectSide::Right),
    {
        match self {
            RectSide::Left => true,
            RectSide::Right => true,
            RectSide::Top => false,
            RectSide::Bottom => false,
        }
    }

    /// Where the side's bound sits in `[x0, y0, x1, y1]`.
    pub fn bound_slot(&self) -> (r: usize)
        ensures
            r == match *self {
                RectSide::Left => 0usize,
                RectSide::Top => 1usize,
                RectSide::Right => 2usize,
                RectSide::Bottom => 3usize,
            },
    {
        match self {
            RectSide::Left => 0,
            RectSide::Top => 1,
            RectSide::Right => 2,
            RectSide::Bottom => 3,
        }
    }
}

/// The order in which a triangle is clipped against the rectangle's sides.
pub fn clip_order() -> (r: Vec<RectSide>)
    ensures
        r@ == seq![RectSide::Left, RectSide::Right, RectSide::Top, RectSide::Bottom],
{
    let mut sides: Vec<RectSide> = Vec::new();
    sides.push(RectSide::Left);
    sides.push(RectSide::Right);
    sides.push(RectSide::Top);
    sides.push(RectSide::Bottom);
    sides
}

/// The successor of vertex `i` around a polygon of `n` vertices.
pub open spec fn next_vertex(i: int, n: int) -> int {
    if i + 1 < n { i + 1 } else { 0 }
}

/// The steps that vertex `i` contributes: itself when it is inside, then the
/// crossing point when the edge to its successor leaves or enters.
pub open spec fn steps_at(inside: Seq<bool>, i: int) -> Seq<ClipStep> {
    let j = next_vertex(i, inside.len() as int);
    let keep = if inside[i] { seq![ClipStep::Keep(i as usize)] } else { Seq::<ClipStep>::empty() };
    let cut = if inside[i] != inside[j] { seq![ClipStep::Cut(i as usize, j as usize)] } else { Seq::<ClipStep>::empty() };
    keep + cut
}

/// The steps of the first `k` vertices, in order.
pub open spec fn clip_steps(inside: Seq<bool>, k: int) -> Seq<ClipStep>
    decreases k,
{
    if k <= 0 {
        Seq::empty()
    } else {
        clip_steps(inside, k - 1) + steps_at(inside, k - 1)
    }
}

/// How many of the first `k` vertices are inside.
pub open spec fn inside_count(inside: Seq<bool>, k: int) -> nat
    decreases k,
{
    if k <= 0 {
        0
    } else {
        inside_count(inside, k - 1) + if inside[k - 1] { 1nat } else { 0nat }
    }
}

/// How many of the edges leaving the first `k` vertices cross the clip line.
pub open spec fn crossing_count(inside: Seq<bool>, k: int) -> nat
    decreases k,
{
    if k <= 0 {
        0
    } else {
        crossing_count(inside, k - 1)
            + if inside[k - 1] != inside[next_vertex(k - 1, inside.len() as int)] { 1nat } else { 0nat }
    }
}

/// What a pass makes of a polygon: nothing of one with fewer than three
/// vertices (it has no area left), else the steps of all its vertices.
pub open spec fn spec_clip_pass(inside: Seq<bool>) -> Seq<ClipStep> {
    if inside.len() < 3 {
        Seq::empty()
    } else {
        clip_steps(inside, inside.len() as int)
    }
}

/// One Sutherland-Hodgman pass: given, for each vertex of a polygon, whether it
/// lies on the kept side of a clip line, the vertices of the clipped polygon,
/// in order: each kept vertex, and a crossing point after each vertex whose
/// edge to the next vertex (cyclically) crosses the line. A polygon of fewer
/// than three vertices is dropped.
pub fn clip_pass(inside: &Vec<bool>) -> (r: Vec<ClipStep>)
    ensures
        r@ == spec_clip_pass(inside@),
        inside@.len() >= 3 ==> r@.len() == inside_count(inside@, inside@.len() as int) + crossing_count(
            inside@,
            inside@.len() as int,
        ),
        forall|s: int| 0 <= s < r@.len() ==> step_in_range(inside@, #[trigger] r@[s]),
        r@.len() <= 2 * inside@.len(),
        forall|a: int, b: int| 0 <= a < b < r@.len() ==> step_precedes(#[trigger] r@[a], #[trigger] r@[b]),
        inside@.len() >= 3 ==> forall|i: int| 0 <= i < inside@.len() && #[trigger] inside@[i] ==> r@.contains(
            ClipStep::Keep(i as usize),
        ),
        inside@.len() >= 3 ==> forall|i: int|
            0 <= i < inside@.len() && #[trigger] inside@[i] != inside@[next_vertex(i, inside@.len() as int)]
                ==> r@.contains(ClipStep::Cut(i as usize, next_vertex(i, inside@.len() as int) as usize)),
{
    let n = inside.len();
    let mut steps: Vec<ClipStep> = Vec::new();
    if n < 3 {
        return steps;
    }
    let mut i: usize = 0;
    while i < n
        invariant
            i <= n,
            n == inside@.len(),
            steps@ == clip_steps(inside@, i as int),
        decreases n - i,
    {
        let j = if i + 1 < n { i + 1 } else { 0 };
        let a_in = inside[i];
        if a_in {
            steps.push(ClipStep::Keep(i));
        }
        if a_in != inside[j] {
            steps.push(ClipStep::Cut(i, j));
        }
        assert(steps@ =~= clip_steps(inside@, i + 1));
        i = i + 1;
    }
    proof {
        law_clip_len(inside@, n as int);
        law_clip_steps_in_range(inside@, n as int);
        lemma_counts_bounded(inside@, n as int);
        law_clip_steps_ordered(inside@, n as int);
        assert forall|i: int| 0 <= i < inside@.len() && #[trigger] inside@[i] implies steps@.contains(
            ClipStep::Keep(i as usize),
        ) by {
            law_clip_steps_complete(inside@, n as int, i);
        }
        assert forall|i: int|
            0 <= i < inside@.len() && #[trigger] inside@[i] != inside@[next_vertex(i, inside@.len() as int)]
            implies steps@.contains(ClipStep::Cut(i as usize, next_vertex(i, inside@.len() as int) as usize)) by {
            law_clip_steps_complete(inside@, n as int, i);
        }
    }
    steps
}

/// The fan triangulation of a convex polygon stored from `b` on: triangles
/// `(b, b + t, b + t + 1)` for `t` from 1 below `m + 1`.
pub open spec fn fan(b: int, m: int) -> Seq<i32>
    decreases m,
{
    if m <= 0 {
        Seq::empty()
    } else {
        fan(b, m - 1) + seq![b as i32, (b + m) as i32, (b + m + 1) as i32]
    }
}

/// Appends a clipped polygon and its fan triangulation: when `poly` has at
/// least three vertices they go to the end of `out`, and the triangles
/// `(b, b + t, b + t + 1)`, `b` the former length of `out`, to the end of
/// `out_idx`. A polygon of fewer than three vertices adds nothing.
pub fn append_fan<T: Copy>(poly: &Vec<T>, out: &mut Vec<T>, out_idx: &mut Vec<i32>)
    requires
        poly@.len() >= 3 ==> old(out)@.len() + poly@.len() <= i32::MAX,
    ensures
        poly@.len() < 3 ==> final(out)@ == old(out)@ && final(out_idx)@ == old(out_idx)@,
        poly@.len() >= 3 ==> final(out)@ == old(out)@ + poly@,
        poly@.len() >= 3 ==> final(out_idx)@ == old(out_idx)@ + fan(old(out)@.len() as int, poly@.len() - 2),
{
    let n = poly.len();
    if n < 3 {
        return;
    }
    let b = out.len();
    let mut k: usize = 0;
    while k < n
        invariant
            k <= n,
            n == poly@.len(),
            b == old(out)@.len(),
            b + n <= i32::MAX,
            out@ == old(out)@ + poly@.subrange(0, k as int),
            out_idx@ == old(out_idx)@,
        decreases n - k,
    {
        out.push(poly[k]);
        assert(poly@.subrange(0, k + 1) =~= poly@.subrange(0, k as int).push(poly@[k as int]));
        k = k + 1;
    }
    assert(poly@.subrange(0, n as int) =~= poly@);
    let bi = b as i32;
    let mut t: usize = 1;
    while t + 1 < n
        invariant
            1 <= t < n,
            n == poly@.len(),
            b + n <= i32::MAX,
            bi == b,
            out_idx@ == old(out_idx)@ + fan(b as int, t - 1),
        decreases n - t,
    {
        let ti = t as i32;
        out_idx.push(bi);
        out_idx.push(bi + ti);
        out_idx.push(bi + ti + 1);
        assert(fan(b as int, t as int) == fan(b as int, t - 1) + seq![b as i32, (b + t) as i32, (b + t + 1) as i32]);
        assert(out_idx@ =~= old(out_idx)@ + fan(b as int, t as int));
        t = t + 1;
    }
}

/// A vertex a step reads from: every step of a pass refers to vertices of the
/// polygon, and a cut joins a vertex on the kept side to one on the other.
pub open spec fn step_in_range(inside: Seq<bool>, s: ClipStep) -> bool {
    match s {
        ClipStep::Keep(i) => i < inside.len() && inside[i as int],
        ClipStep::Cut(i, j) => i < inside.len() && j < inside.len() && j as int == next_vertex(
            i as int,
            inside.len() as int,
        ) && inside[i as int] != inside[j as int],
    }
}

/// Every step of a pass reads existing vertices: a kept vertex is inside, a
/// cut runs from a vertex to its successor across the line.
pub proof fn law_clip_steps_in_range(inside: Seq<bool>, k: int)
    requires
        0 <= k <= inside.len(),
        inside.len() <= usize::MAX,
    ensures
        forall|s: int| 0 <= s < clip_steps(inside, k).len() ==> step_in_range(inside, #[trigger] clip_steps(inside, k)[s]),
    decreases k,
{
    if k > 0 {
        law_clip_steps_in_range(inside, k - 1);
        let prev = clip_steps(inside, k - 1);
        let here = steps_at(inside, k - 1);
        assert forall|s: int| 0 <= s < clip_steps(inside, k).len() implies step_in_range(inside, #[trigger] clip_steps(inside, k)[s]) by {
            if s >= prev.len() {
                assert(clip_steps(inside, k)[s] == here[s - prev.len()]);
                assert(((k - 1) as usize) as int == k - 1);
                let j = next_vertex(k - 1, inside.len() as int);
                assert((j as usize) as int == j);
            } else {
                assert(clip_steps(inside, k)[s] == prev[s]);
            }
        }
    }
}

/// A pass emits one vertex per kept vertex and one per crossing edge.
pub proof fn law_clip_len(inside: Seq<bool>, k: int)
    requires
        0 <= k <= inside.len(),
    ensures
        clip_steps(inside, k).len() == inside_count(inside, k) + crossing_count(inside, k),
    decreases k,
{
    if k > 0 {
        law_clip_len(inside, k - 1);
    }
}

proof fn lemma_counts_bounded(inside: Seq<bool>, k: int)
    requires
        0 <= k,
    ensures
        inside_count(inside, k) <= k,
        crossing_count(inside, k) <= k,
    decreases k,
{
    if k > 0 {
        lemma_counts_bounded(inside, k - 1);
    }
}

/// The input vertex a step comes from.
pub open spec fn step_source(s: ClipStep) -> int {
    match s {
        ClipStep::Keep(i) => i as int,
        ClipStep::Cut(i, j) => i as int,
    }
}

/// Step `a` may come before step `b` in a pass: it comes from an earlier
/// vertex, or from the same one with the vertex kept before its cut.
pub open spec fn step_precedes(a: ClipStep, b: ClipStep) -> bool {
    ||| step_source(a) < step_source(b)
    ||| (step_source(a) == step_source(b) && a is Keep && b is Cut)
}

proof fn lemma_sources_below(inside: Seq<bool>, k: int)
    requires
        0 <= k <= inside.len(),
        inside.len() <= usize::MAX,
    ensures
        forall|s: int| 0 <= s < clip_steps(inside, k).len() ==> 0 <= #[trigger] step_source(clip_steps(inside, k)[s]) < k,
    decreases k,
{
    if k > 0 {
        lemma_sources_below(inside, k - 1);
        let prev = clip_steps(inside, k - 1);
        let here = steps_at(inside, k - 1);
        assert(((k - 1) as usize) as int == k - 1);
        assert forall|s: int| 0 <= s < clip_steps(inside, k).len() implies 0 <= #[trigger] step_source(clip_steps(inside, k)[s]) < k by {
            if s >= prev.len() {
                assert(clip_steps(inside, k)[s] == here[s - prev.len()]);
            } else {
                assert(clip_steps(inside, k)[s] == prev[s]);
            }
        }
    }
}

/// The steps of a pass come in the order of their source vertices, each kept
/// vertex right before the cut on the edge leaving it: so the clipped polygon
/// walks the boundary in the input's order.
pub proof fn law_clip_steps_ordered(inside: Seq<bool>, k: int)
    requires
        0 <= k <= inside.len(),
        inside.len() <= usize::MAX,
    ensures
        forall|a: int, b: int|
            0 <= a < b < clip_steps(inside, k).len() ==> step_precedes(
                #[trigger] clip_steps(inside, k)[a],
                #[trigger] clip_steps(inside, k)[b],
            ),
    decreases k,
{
    if k > 0 {
        law_clip_steps_ordered(inside, k - 1);
        lemma_sources_below(inside, k - 1);
        let prev = clip_steps(inside, k - 1);
        let here = steps_at(inside, k - 1);
        let cur = clip_steps(inside, k);
        assert(((k - 1) as usize) as int == k - 1);
        assert forall|a: int, b: int| 0 <= a < b < cur.len() implies step_precedes(#[trigger] cur[a], #[trigger] cur[b]) by {
            if b < prev.len() {
                assert(cur[a] == prev[a] && cur[b] == prev[b]);
            } else if a < prev.len() {
                assert(cur[a] == prev[a]);
                assert(cur[b] == here[b - prev.len()]);
                assert(step_source(prev[a]) < k - 1);
            } else {
                assert(cur[a] == here[a - prev.len()]);
                assert(cur[b] == here[b - prev.len()]);
            }
        }
    }
}

/// Every vertex on the kept side shows up as a `Keep`, and every edge that
/// crosses the line shows up as a `Cut` from its start to its end.
pub proof fn law_clip_steps_complete(inside: Seq<bool>, k: int, i: int)
    requires
        0 <= i < k <= inside.len(),
        inside.len() <= usize::MAX,
    ensures
        inside[i] ==> exists|s: int| 0 <= s < clip_steps(inside, k).len() && clip_steps(inside, k)[s] == ClipStep::Keep(i as usize),
        inside[i] != inside[next_vertex(i, inside.len() as int)] ==> exists|s: int|
            0 <= s < clip_steps(inside, k).len() && clip_steps(inside, k)[s] == ClipStep::Cut(
                i as usize,
                next_vertex(i, inside.len() as int) as usize,
            ),
    decreases k,
{
    let prev = clip_steps(inside, k - 1);
    let here = steps_at(inside, k - 1);
    let cur = clip_steps(inside, k);
    let j = next_vertex(i, inside.len() as int);
    if i == k - 1 {
        if inside[i] {
            assert(cur[prev.len() as int] == here[0]);
        }
        if inside[i] != inside[j] {
            let at = prev.len() + here.len() - 1;
            assert(cur[at] == here[here.len() - 1]);
        }
    } else {
        law_clip_steps_complete(inside, k - 1, i);
        if inside[i] {
            let s = choose|s: int| 0 <= s < prev.len() && prev[s] == ClipStep::Keep(i as usize);
            assert(cur[s] == prev[s]);
        }
        if inside[i] != inside[j] {
            let s = choose|s: int| 0 <= s < prev.len() && prev[s] == ClipStep::Cut(i as usize, j as usize);
            assert(cur[s] == prev[s]);
        }
    }
}

/// A pass at most doubles the number of vertices.
pub proof fn law_clip_at_most_doubles(inside: Seq<bool>)
    ensures
        spec_clip_pass(inside).len() <= 2 * inside.len(),
{
    if inside.len() >= 3 {
        law_clip_len(inside, inside.len() as int);
        lemma_counts_bounded(inside, inside.len() as int);
    }
}

/// A polygon entirely on the kept side passes through unchanged.
pub proof fn law_clip_all_inside(inside: Seq<bool>)
    requires
        inside.len() >= 3,
        forall|i: int| 0 <= i < inside.len() ==> #[trigger] inside[i],
    ensures
        spec_clip_pass(inside) == Seq::new(inside.len(), |i: int| ClipStep::Keep(i as usize)),
{
    lemma_clip_all_inside_prefix(inside, inside.len() as int);
}

proof fn lemma_clip_all_inside_prefix(inside: Seq<bool>, k: int)
    requires
        0 <= k <= inside.len(),
        forall|i: int| 0 <= i < inside.len() ==> #[trigger] inside[i],
    ensures
        clip_steps(inside, k) == Seq::new(k as nat, |i: int| ClipStep::Keep(i as usize)),
    decreases k,
{
    if k > 0 {
        lemma_clip_all_inside_prefix(inside, k - 1);
        let j = next_vertex(k - 1, inside.len() as int);
        assert(inside[k - 1] && inside[j]);
        assert(clip_steps(inside, k) =~= Seq::new(k as nat, |i: int| ClipStep::Keep(i as usize)));
    } else {
        assert(clip_steps(inside, k) =~= Seq::new(k as nat, |i: int| ClipStep::Keep(i as usize)));
    }
}

/// A polygon entirely on the other side vanishes.
pub proof fn law_clip_all_outside(inside: Seq<bool>)
    requires
        forall|i: int| 0 <= i < inside.len() ==> !#[trigger] inside[i],
    ensures
        spec_clip_pass(inside) == Seq::<ClipStep>::empty(),
{
    lemma_clip_all_outside_prefix(inside, inside.len() as int);
}

proof fn lemma_clip_all_outside_prefix(inside: Seq<bool>, k: int)
    requires
        0 <= k <= inside.len(),
        forall|i: int| 0 <= i < inside.len() ==> !#[trigger] inside[i],
    ensures
        clip_steps(inside, k) == Seq::<ClipStep>::empty(),
    decreases k,
{
    if k > 0 {
        lemma_clip_all_outside_prefix(inside, k - 1);
        let j = next_vertex(k - 1, inside.len() as int);
        assert(!inside[k - 1] && !inside[j]);
        assert(clip_steps(inside, k) =~= Seq::<ClipStep>::empty());
    }
}

proof fn lemma_crossing_parity(inside: Seq<bool>, k: int)
    requires
        0 <= k < inside.len(),
    ensures
        crossing_count(inside, k) % 2 == (if inside[0] != inside[k] { 1int } else { 0int }),
    decreases k,
{
    if k > 0 {
        lemma_crossing_parity(inside, k - 1);
        assert(next_vertex(k - 1, inside.len() as int) == k);
    }
}

/// Around a closed polygon the clip line is crossed an even number of times,
/// so a pass emits crossing points in entering/leaving pairs.
pub proof fn law_clip_crossings_even(inside: Seq<bool>)
    ensures
        crossing_count(inside, inside.len() as int) % 2 == 0,
{
    let n = inside.len() as int;
    if n > 0 {
        lemma_crossing_parity(inside, n - 1);
        assert(next_vertex(n - 1, n) == 0);
    }
}

/// The fan of `m` triangles holds `3 m` indices; every triangle starts at the
/// polygon's first vertex `b`, and every index addresses one of the polygon's
/// `m + 2` vertices.
pub proof fn law_fan_shape(b: int, m: int)
    requires
        0 <= m,
        0 <= b,
        b + m + 2 <= i32::MAX,
    ensures
        fan(b, m).len() == 3 * m,
        forall|t: int| 0 <= t < m ==> #[trigger] fan(b, m)[3 * t] == b,
        forall|t: int| 0 <= t < m ==> #[trigger] fan(b, m)[3 * t + 1] == b + t + 1,
        forall|t: int| 0 <= t < m ==> #[trigger] fan(b, m)[3 * t + 2] == b + t + 2,
        forall|j: int| 0 <= j < 3 * m ==> b <= #[trigger] fan(b, m)[j] < b + m + 2,
    decreases m,
{
    if m > 0 {
        law_fan_shape(b, m - 1);
        let prev = fan(b, m - 1);
        let cur = fan(b, m);
        assert(cur == prev + seq![b as i32, (b + m) as i32, (b + m + 1) as i32]);
        assert forall|t: int| 0 <= t < m implies #[trigger] cur[3 * t] == b by {
            if t < m - 1 {
                assert(cur[3 * t] == prev[3 * t]);
            }
        }
        assert forall|t: int| 0 <= t < m implies #[trigger] cur[3 * t + 1] == b + t + 1 by {
            if t < m - 1 {
                assert(cur[3 * t + 1] == prev[3 * t + 1]);
            }
        }
        assert forall|t: int| 0 <= t < m implies #[trigger] cur[3 * t + 2] == b + t + 2 by {
            if t < m - 1 {
                assert(cur[3 * t + 2] == prev[3 * t + 2]);
            }
        }
        assert forall|j: int| 0 <= j < 3 * m implies b <= #[trigger] cur[j] < b + m + 2 by {
            if j < 3 * (m - 1) {
                assert(cur[j] == prev[j]);
            }
        }
    }
}

} // verus!
