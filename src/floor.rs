use vstd::prelude::*;

verus! {

/// A run of columns `[start, end)` that are all at least `level` high: it
/// becomes one static slab at that level.
#[derive(Clone, Copy, Debug, PartialEq, Eq, Structural)]
pub struct FloorSegment {
    pub level: usize,
    pub start: usize,
    pub end: usize,
}

/// The segment holds the cell of column `x` at level `level`.
pub open spec fn covers(s: FloorSegment, x: int, level: int) -> bool {
    s.level == level && s.start <= x < s.end
}

/// Some segment of `segs` holds the cell of column `x` at level `level`.
pub open spec fn covered(segs: Seq<FloorSegment>, x: int, level: int) -> bool {
    exists|k: int| 0 <= k < segs.len() && #[trigger] covers(segs[k], x, level)
}

/// `s` is a longest run of columns of `h` that reach its level.
pub open spec fn maximal_run(h: Seq<usize>, s: FloorSegment) -> bool {
    &&& 1 <= s.level
    &&& s.start < s.end <= h.len()
    &&& forall|x: int| s.start <= x < s.end ==> h[x] >= s.level
    &&& s.start == 0 || h[s.start - 1] < s.level
    &&& s.end == h.len() || h[s.end as int] < s.level
}

/// `a` comes before `b`: by level, then left to right with a gap between.
pub open spec fn segment_before(a: FloorSegment, b: FloorSegment) -> bool {
    a.level < b.level || (a.level == b.level && a.end < b.start)
}

/// The slabs of a height profile: its maximal runs at every level, ordered
/// by level and then from left to right, and holding every cell that lies
/// under the profile.
pub open spec fn is_floor_of(h: Seq<usize>, segs: Seq<FloorSegment>) -> bool {
    &&& forall|k: int| 0 <= k < segs.len() ==> maximal_run(h, #[trigger] segs[k])
    &&& forall|j: int, k: int|
        0 <= j < k < segs.len() ==> segment_before(#[trigger] segs[j], #[trigger] segs[k])
    &&& forall|x: int, level: int|
        0 <= x < h.len() && 1 <= level <= h[x] ==> #[trigger] covered(segs, x, level)
}

proof fn lemma_push_keeps_covered(segs: Seq<FloorSegment>, s: FloorSegment, x: int, level: int)
    requires
        covered(segs, x, level),
    ensures
        covered(segs.push(s), x, level),
{
    let k = choose|k: int| 0 <= k < segs.len() && #[trigger] covers(segs[k], x, level);
    assert(covers(segs.push(s)[k], x, level));
}

/// The highest column of a non-empty profile.
pub fn max_height(heights: &Vec<usize>) -> (m: usize)
    requires
        heights.len() > 0,
    ensures
        forall|i: int| 0 <= i < heights.len() ==> heights@[i] <= m,
        exists|i: int| 0 <= i < heights.len() && heights@[i] == m,
{
    let mut m = heights[0];
    let mut i: usize = 1;
    while i < heights.len()
        invariant
            1 <= i <= heights.len(),
            forall|j: int| 0 <= j < i ==> heights@[j] <= m,
            exists|j: int| 0 <= j < i && heights@[j] == m,
        decreases heights.len() - i,
    {
        if heights[i] > m {
            m = heights[i];
        }
        i = i + 1;
    }
    m
}

/// Merges a non-empty height profile into stacked slabs: for each level from
/// one to the highest column, each maximal run of columns at least that high
/// gives one segment.
pub fn add_colliders(heights: &Vec<usize>) -> (segs: Vec<FloorSegment>)
    requires
        heights.len() > 0,
    ensures
        is_floor_of(heights@, segs@),
{
    let h = Ghost(heights@);
    let n = heights.len();
    let max = max_height(heights);
    let mut segs: Vec<FloorSegment> = Vec::new();
    let mut level: usize = 0;
    while level < max
        invariant
            h@ == heights@,
            n == heights.len(),
            level <= max,
            forall|i: int| 0 <= i < n ==> heights@[i] <= max,
            forall|k: int| 0 <= k < segs.len() ==> maximal_run(h@, #[trigger] segs@[k]),
            forall|k: int| 0 <= k < segs.len() ==> (#[trigger] segs@[k]).level <= level,
            forall|j: int, k: int|
                0 <= j < k < segs.len() ==> segment_before(#[trigger] segs@[j], #[trigger] segs@[k]),
            forall|x: int, lv: int|
                0 <= x < n && 1 <= lv <= level && lv <= h@[x] ==> #[trigger] covered(segs@, x, lv),
        decreases max - level,
    {
        level = level + 1;
        let mut start: Option<usize> = None;
        let mut i: usize = 0;
        while i < n
            invariant
                h@ == heights@,
                n == heights.len(),
                1 <= level <= max,
                i <= n,
                forall|k: int| 0 <= k < segs.len() ==> maximal_run(h@, #[trigger] segs@[k]),
                forall|k: int|
                    0 <= k < segs.len() ==> (#[trigger] segs@[k]).level < level || (segs@[k].level
                        == level && segs@[k].end < i && (start matches Some(s) ==> segs@[k].end
                        < s)),
                forall|j: int, k: int|
                    0 <= j < k < segs.len() ==> segment_before(
                        #[trigger] segs@[j],
                        #[trigger] segs@[k],
                    ),
                forall|x: int, lv: int|
                    0 <= x < n && 1 <= lv < level && lv <= h@[x] ==> #[trigger] covered(
                        segs@,
                        x,
                        lv,
                    ),
                forall|x: int|
                    0 <= x < i && level <= h@[x] ==> covered(segs@, x, level as int) || (
                    start matches Some(s) && s <= x),
                start matches Some(s) ==> {
                    &&& s < i
                    &&& s == 0 || h@[s - 1] < level
                    &&& forall|x: int| s <= x < i ==> h@[x] >= level
                },
                start is None ==> i == 0 || h@[i - 1] < level,
            decreases n - i,
        {
            if heights[i] >= level && start.is_none() {
                start = Some(i);
            } else if heights[i] < level && start.is_some() {
                let s = FloorSegment { level, start: start.unwrap(), end: i };
                proof {
                    assert forall|x: int, lv: int|
                        0 <= x < n && 1 <= lv < level && lv <= h@[x] implies #[trigger] covered(
                        segs@.push(s),
                        x,
                        lv,
                    ) by {
                        lemma_push_keeps_covered(segs@, s, x, lv);
                    }
                    assert forall|x: int| 0 <= x < i + 1 && level <= h@[x] implies covered(
                        segs@.push(s),
                        x,
                        level as int,
                    ) by {
                        if covered(segs@, x, level as int) {
                            lemma_push_keeps_covered(segs@, s, x, level as int);
                        } else {
                            assert(covers(segs@.push(s)[segs@.len() as int], x, level as int));
                        }
                    }
                }
                segs.push(s);
                start = None;
            }
            i = i + 1;
        }
        if start.is_some() {
            let s = FloorSegment { level, start: start.unwrap(), end: n };
            proof {
                assert forall|x: int, lv: int|
                    0 <= x < n && 1 <= lv < level && lv <= h@[x] implies #[trigger] covered(
                    segs@.push(s),
                    x,
                    lv,
                ) by {
                    lemma_push_keeps_covered(segs@, s, x, lv);
                }
                assert forall|x: int| 0 <= x < n && level <= h@[x] implies covered(
                    segs@.push(s),
                    x,
                    level as int,
                ) by {
                    if covered(segs@, x, level as int) {
                        lemma_push_keeps_covered(segs@, s, x, level as int);
                    } else {
                        assert(covers(segs@.push(s)[segs@.len() as int], x, level as int));
                    }
                }
            }
            segs.push(s);
        }
        assert forall|x: int, lv: int|
            0 <= x < n && 1 <= lv <= level && lv <= h@[x] implies #[trigger] covered(
            segs@,
            x,
            lv,
        ) by {
            if lv == level {
                assert(covered(segs@, x, level as int));
            }
        }
    }
    assert forall|x: int, lv: int| 0 <= x < n && 1 <= lv <= h@[x] implies #[trigger] covered(
        segs@,
        x,
        lv,
    ) by {
        assert(heights@[x] <= max);
    }
    segs
}

/// The slabs hold exactly the cells under the profile: a cell of column
/// `x` at level `level` (from one up) is held by some slab if and only if
/// the column reaches that level.
pub proof fn lemma_floor_covers_exactly(h: Seq<usize>, segs: Seq<FloorSegment>, x: int, level: int)
    requires
        is_floor_of(h, segs),
        1 <= level,
    ensures
        covered(segs, x, level) <==> (0 <= x < h.len() && h[x] >= level),
{
    if covered(segs, x, level) {
        let k = choose|k: int| 0 <= k < segs.len() && #[trigger] covers(segs[k], x, level);
        assert(maximal_run(h, segs[k]));
    }
}

/// No two slabs at the same level overlap.
pub proof fn lemma_floor_segments_disjoint(h: Seq<usize>, segs: Seq<FloorSegment>, j: int, k: int)
    requires
        is_floor_of(h, segs),
        0 <= j < segs.len(),
        0 <= k < segs.len(),
        j != k,
        segs[j].level == segs[k].level,
    ensures
        segs[j].end <= segs[k].start || segs[k].end <= segs[j].start,
{
    if j < k {
        assert(segment_before(segs[j], segs[k]));
    } else {
        assert(segment_before(segs[k], segs[j]));
    }
}

/// Where the first column stands at least one high, as every drawn profile
/// does, a level-one slab starts at the left edge: the ground under the
/// player's spawn point.
pub proof fn lemma_ground_slab_at_left_edge(h: Seq<usize>, segs: Seq<FloorSegment>) -> (k: int)
    requires
        is_floor_of(h, segs),
        h.len() > 0,
        h[0] >= 1,
    ensures
        0 <= k < segs.len(),
        segs[k].level == 1,
        segs[k].start == 0,
        segs[k].end >= 1,
{
    assert(covered(segs, 0, 1));
    let k = choose|k: int| 0 <= k < segs.len() && #[trigger] covers(segs[k], 0, 1);
    k
}

} // verus!
