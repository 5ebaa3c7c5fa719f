use vstd::prelude::*;

use crate::random::random_below;

verus! {

/// Columns of a level.
pub const WORLD_WIDTH: usize = 150;

/// Columns at the left edge of a level where no monster is ever placed.
pub const SAFE_COLUMNS: usize = 6;

/// Rolls are drawn uniformly from `0..ROLL_RANGE`.
pub const ROLL_RANGE: u32 = 100;

// ---------------------------------------------------------------- heights

/// Height change from one column to the next for a roll in `0..100`:
/// 76% flat, 6% one down, 14% one up, 4% two up.
pub open spec fn delta_for_roll(roll: u32) -> int {
    if roll <= 75 {
        0
    } else if roll <= 81 {
        -1
    } else if roll <= 95 {
        1
    } else {
        2
    }
}

/// The height that follows `h` after a change of `delta`: never below one.
pub open spec fn next_height_spec(h: int, delta: int) -> int {
    if h + delta > 0 {
        h + delta
    } else {
        1
    }
}

/// Height of column `i` of the profile drawn with `rolls`: the first column
/// has height one, and the roll of each column decides the step to the next.
pub open spec fn height_at(rolls: Seq<u32>, i: nat) -> int
    decreases i,
{
    if i == 0 {
        1
    } else {
        next_height_spec(height_at(rolls, (i - 1) as nat), delta_for_roll(rolls[i - 1]))
    }
}

/// `heights` is the profile drawn with one roll per column.
pub open spec fn is_profile_of(heights: Seq<usize>, rolls: Seq<u32>) -> bool {
    &&& heights.len() == rolls.len()
    &&& forall|i: int| 0 <= i < heights.len() ==> heights[i] == height_at(rolls, i as nat)
}

pub open spec fn rolls_in_range(rolls: Seq<u32>) -> bool {
    forall|i: int| 0 <= i < rolls.len() ==> rolls[i] < ROLL_RANGE
}

/// A terrain profile: it starts at height one, no column is below one, and
/// from a column to the next the height changes by -1, 0, +1 or +2.
pub open spec fn valid_profile(h: Seq<usize>) -> bool {
    &&& h.len() > 0 ==> h[0] == 1
    &&& forall|i: int| 0 <= i < h.len() ==> h[i] >= 1
    &&& forall|i: int| 0 <= i < h.len() - 1 ==> -1 <= #[trigger] h[i + 1] - h[i] <= 2
}

/// The height change that a roll selects.
pub fn height_delta(roll: u32) -> (d: isize)
    ensures
        d == delta_for_roll(roll),
{
    if roll <= 75 {
        0
    } else if roll <= 81 {
        -1
    } else if roll <= 95 {
        1
    } else {
        2
    }
}

/// The height that follows `current` after a change of `delta`.
pub fn next_height(current: usize, delta: isize) -> (r: usize)
    requires
        -1 <= delta <= 2,
        current + 2 <= usize::MAX,
    ensures
        r == next_height_spec(current as int, delta as int),
{
    if delta >= 0 && current + delta as usize > 0 {
        current + delta as usize
    } else if delta < 0 && current > 1 {
        current - 1
    } else {
        1
    }
}

/// Draws the height change to the next column.
pub fn get_random_height_delta() -> (d: isize)
    ensures
        exists|roll: u32| roll < ROLL_RANGE && d == delta_for_roll(roll),
{
    let roll = random_below(ROLL_RANGE);
    height_delta(roll)
}

/// Draws the height of the column after one of height `current`.
pub fn get_next_height(current: usize) -> (r: usize)
    requires
        current + 2 <= usize::MAX,
    ensures
        exists|roll: u32| roll < ROLL_RANGE && r == next_height_spec(current as int, delta_for_roll(roll)),
{
    let delta = get_random_height_delta();
    next_height(current, delta)
}

pub(crate) proof fn lemma_height_bounds(rolls: Seq<u32>, i: nat)
    ensures
        1 <= height_at(rolls, i) <= 1 + 2 * i,
    decreases i,
{
    if i > 0 {
        lemma_height_bounds(rolls, (i - 1) as nat);
    }
}

/// The profile drawn with the given rolls, one per column.
pub fn heights_from_rolls(rolls: &Vec<u32>) -> (r: Vec<usize>)
    requires
        rolls.len() <= usize::MAX / 4,
    ensures
        is_profile_of(r@, rolls@),
{
    let n = rolls.len();
    let mut heights: Vec<usize> = Vec::with_capacity(n);
    let mut height: usize = 1;
    let mut i: usize = 0;
    while i < n
        invariant
            n == rolls.len(),
            n <= usize::MAX / 4,
            i <= n,
            heights.len() == i,
            height == height_at(rolls@, i as nat),
            forall|j: int| 0 <= j < i ==> heights@[j] == height_at(rolls@, j as nat),
        decreases n - i,
    {
        heights.push(height);
        proof {
            lemma_height_bounds(rolls@, i as nat);
        }
        let delta = height_delta(rolls[i]);
        height = next_height(height, delta);
        i = i + 1;
    }
    heights
}

/// Draws a terrain profile of `width` columns.
pub fn create_world(width: usize) -> (r: Vec<usize>)
    requires
        width <= usize::MAX / 4,
    ensures
        r@.len() == width,
        exists|rolls: Seq<u32>| rolls_in_range(rolls) && #[trigger] is_profile_of(r@, rolls),
{
    let mut heights: Vec<usize> = Vec::with_capacity(width);
    let mut height: usize = 1;
    let ghost mut rolls: Seq<u32> = Seq::empty();
    let mut i: usize = 0;
    while i < width
        invariant
            width <= usize::MAX / 4,
            i <= width,
            heights.len() == i,
            rolls.len() == i,
            rolls_in_range(rolls),
            height == height_at(rolls.push(0), i as nat),
            forall|j: int| 0 <= j < i ==> heights@[j] == height_at(rolls, j as nat),
        decreases width - i,
    {
        heights.push(height);
        proof {
            lemma_height_bounds(rolls.push(0), i as nat);
        }
        let next = get_next_height(height);
        let ghost roll = choose|roll: u32|
            roll < ROLL_RANGE && next == next_height_spec(height as int, delta_for_roll(roll));
        proof {
            let old_rolls = rolls;
            rolls = rolls.push(roll);
            lemma_height_prefix(old_rolls.push(0), rolls, i as nat);
            lemma_height_prefix(rolls, rolls.push(0), (i + 1) as nat);
            assert forall|j: int| 0 <= j < i + 1 implies heights@[j] == height_at(rolls, j as nat) by {
                if j < i {
                    lemma_height_prefix(old_rolls, rolls, j as nat);
                }
            }
        }
        height = next;
        i = i + 1;
    }
    assert(is_profile_of(heights@, rolls));
    heights
}

/// The height of a column depends only on the rolls before it.
proof fn lemma_height_prefix(a: Seq<u32>, b: Seq<u32>, i: nat)
    requires
        i <= a.len(),
        i <= b.len(),
        forall|j: int| 0 <= j < i ==> a[j] == b[j],
    ensures
        height_at(a, i) == height_at(b, i),
    decreases i,
{
    if i > 0 {
        lemma_height_prefix(a, b, (i - 1) as nat);
    }
}

/// Every profile the generator draws is a valid terrain profile.
pub proof fn lemma_generated_profile_is_valid(heights: Seq<usize>, rolls: Seq<u32>)
    requires
        is_profile_of(heights, rolls),
    ensures
        valid_profile(heights),
{
    assert forall|i: int| 0 <= i < heights.len() implies heights[i] >= 1 by {
        lemma_height_bounds(rolls, i as nat);
    }
    assert forall|i: int| 0 <= i < heights.len() - 1 implies -1 <= #[trigger] heights[i + 1] - heights[i] <= 2 by {
        lemma_height_bounds(rolls, i as nat);
        assert(heights[i + 1] == height_at(rolls, (i + 1) as nat));
    }
}

// ---------------------------------------------------------------- monsters

/// Whether a monster stands on column `x` for a roll in `0..100`: never on
/// the first columns, else for the nine highest rolls.
pub fn enemy_for_roll(x: usize, roll: u32) -> (r: bool)
    ensures
        r == (x >= SAFE_COLUMNS && roll > 90),
{
    x >= SAFE_COLUMNS && roll > 90
}

/// Draws whether a monster stands on column `x`.
pub fn should_add_enemy(x: usize) -> (r: bool)
    ensures
        r ==> x >= SAFE_COLUMNS,
{
    if x < SAFE_COLUMNS {
        return false;
    }
    let roll = random_below(ROLL_RANGE);
    enemy_for_roll(x, roll)
}

/// Columns of a profile of `width` columns where monsters stand: from left
/// to right, each once, none among the first columns.
pub open spec fn enemy_columns_ok(width: int, cols: Seq<usize>) -> bool {
    &&& forall|k: int| 0 <= k < cols.len() ==> SAFE_COLUMNS <= #[trigger] cols[k] < width
    &&& forall|j: int, k: int| 0 <= j < k < cols.len() ==> #[trigger] cols[j] < #[trigger] cols[k]
}

/// Draws the columns where monsters stand.
pub fn add_enemies(heights: &Vec<usize>) -> (cols: Vec<usize>)
    ensures
        enemy_columns_ok(heights@.len() as int, cols@),
{
    let mut cols: Vec<usize> = Vec::new();
    let mut x: usize = 0;
    while x < heights.len()
        invariant
            x <= heights.len(),
            forall|k: int| 0 <= k < cols.len() ==> SAFE_COLUMNS <= #[trigger] cols@[k] < x,
            forall|j: int, k: int| 0 <= j < k < cols.len() ==> #[trigger] cols@[j] < #[trigger] cols@[k],
        decreases heights.len() - x,
    {
        if should_add_enemy(x) {
            cols.push(x);
        }
        x = x + 1;
    }
    cols
}

/// No monster is ever placed on the first columns of a level.
pub proof fn lemma_safe_columns_have_no_monster(width: int, cols: Seq<usize>, x: int)
    requires
        enemy_columns_ok(width, cols),
        0 <= x < SAFE_COLUMNS,
    ensures
        !cols.contains(x as usize),
{
}

} // verus!
