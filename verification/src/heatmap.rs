//! The heatmap: a grid of bytes between 0 and 100, one row for each frame and
//! one column for each subcarrier, scaled over the whole of what is shown.

use vstd::prelude::*;
use crate::csi_packet::{squared_amplitude, squared_amplitude_of, CsiPacket};

verus! {

/// The highest value that a cell of a heatmap takes.
pub const HEAT_MAX: u8 = 100;

/// The width of the buckets that cells are coloured by.
pub const BUCKET_WIDTH: u8 = 2;

/// A grid of cells between 0 and 100.
#[derive(Debug)]
pub struct Heatmap {
    pub values: Vec<Vec<u8>>,
}

impl Heatmap {
    /// A heatmap is well formed when no cell is above 100.
    pub open spec fn wf(&self) -> bool {
        forall|r: int, c: int| #[trigger]
            is_cell(rows_of(self.values@), r, c) ==> rows_of(self.values@)[r][c] <= HEAT_MAX
    }

    /// A heatmap without rows.
    pub fn new() -> (out: Self)
        ensures
            out.values@.len() == 0,
            out.wf(),
    {
        Heatmap { values: Vec::new() }
    }

    /// The heatmap of a grid of samples.
    pub fn from_samples(samples: &Vec<Vec<u64>>) -> (out: Self)
        ensures
            rows_of(out.values@) == normalized(rows_of(samples@)),
            out.wf(),
    {
        proof {
            lemma_normalized_bounds(rows_of(samples@));
        }
        Heatmap { values: normalize(samples) }
    }
}

/// Whether row `r` of `grid` has a column `c`.
pub open spec fn is_cell<T>(grid: Seq<Seq<T>>, r: int, c: int) -> bool {
    0 <= r < grid.len() && 0 <= c < grid[r].len()
}

/// Whether `m` is the smallest sample of `grid`.
pub open spec fn is_lowest(grid: Seq<Seq<u64>>, m: u64) -> bool {
    &&& exists|r: int, c: int| #[trigger] is_cell(grid, r, c) && grid[r][c] == m
    &&& forall|r: int, c: int| #[trigger] is_cell(grid, r, c) ==> m <= grid[r][c]
}

/// Whether `m` is the largest sample of `grid`.
pub open spec fn is_highest(grid: Seq<Seq<u64>>, m: u64) -> bool {
    &&& exists|r: int, c: int| #[trigger] is_cell(grid, r, c) && grid[r][c] == m
    &&& forall|r: int, c: int| #[trigger] is_cell(grid, r, c) ==> grid[r][c] <= m
}

/// The smallest sample of a grid that has one.
pub open spec fn lowest(grid: Seq<Seq<u64>>) -> u64 {
    choose|m: u64| is_lowest(grid, m)
}

/// The largest sample of a grid that has one.
pub open spec fn highest(grid: Seq<Seq<u64>>) -> u64 {
    choose|m: u64| is_highest(grid, m)
}

/// Where `a` lies between `lo` and `hi` on a scale from 0 to 100, rounded to
/// the nearest whole number, a half upwards. Where the range is empty, 0.
pub open spec fn scale(a: u64, lo: u64, hi: u64) -> int {
    if hi <= lo || a <= lo {
        0
    } else if a >= hi {
        100
    } else {
        (200 * (a - lo) + (hi - lo)) / (2 * (hi - lo))
    }
}

/// The heat of cell `(r, c)`: its sample on the scale between the smallest
/// and the largest sample of the whole grid.
pub open spec fn heat(grid: Seq<Seq<u64>>, r: int, c: int) -> int {
    scale(grid[r][c], lowest(grid), highest(grid))
}

/// The heatmap of `grid`: a grid of the same shape that holds the heat of
/// each cell.
pub open spec fn normalized(grid: Seq<Seq<u64>>) -> Seq<Seq<u8>> {
    Seq::new(grid.len(), |r: int| Seq::new(grid[r].len(), |c: int| heat(grid, r, c) as u8))
}

/// What the rows of `v` hold.
pub open spec fn rows_of<T>(v: Seq<Vec<T>>) -> Seq<Seq<T>> {
    Seq::new(v.len(), |r: int| v[r]@)
}

/// A grid has at most one smallest and one largest sample.
pub proof fn lemma_extremes_unique(grid: Seq<Seq<u64>>, lo: u64, hi: u64)
    requires
        is_lowest(grid, lo),
        is_highest(grid, hi),
    ensures
        lowest(grid) == lo,
        highest(grid) == hi,
        lo <= hi,
{
}

/// The heat of a cell is a whole number between 0 and 100.
pub proof fn lemma_scale_bounds(a: u64, lo: u64, hi: u64)
    ensures
        0 <= scale(a, lo, hi) <= 100,
{
    if lo < a < hi {
        let d = hi - lo;
        let x = a - lo;
        assert(0 <= (200 * x + d) / (2 * d) <= 100) by (nonlinear_arith)
            requires
                0 < x < d,
        ;
    }
}

/// Computes `scale`.
fn scale_of(a: u64, lo: u64, hi: u64) -> (out: u8)
    ensures
        out == scale(a, lo, hi),
        out <= HEAT_MAX,
{
    proof {
        lemma_scale_bounds(a, lo, hi);
    }
    if hi <= lo || a <= lo {
        0
    } else if a >= hi {
        100
    } else {
        let d: u128 = (hi - lo) as u128;
        let x: u128 = (a - lo) as u128;
        let q: u128 = (200 * x + d) / (2 * d);
        q as u8
    }
}

/// Whether cell `(r, c)` comes before cell `(i, j)`, row by row.
spec fn before(r: int, c: int, i: int, j: int) -> bool {
    r < i || (r == i && c < j)
}

/// Whether `m` is the smallest of the samples before cell `(i, j)`.
spec fn lowest_before(grid: Seq<Seq<u64>>, m: u64, i: int, j: int) -> bool {
    &&& exists|r: int, c: int| #[trigger] is_cell(grid, r, c) && before(r, c, i, j) && grid[r][c] == m
    &&& forall|r: int, c: int| #[trigger] is_cell(grid, r, c) && before(r, c, i, j) ==> m <= grid[r][c]
}

/// Whether `m` is the largest of the samples before cell `(i, j)`.
spec fn highest_before(grid: Seq<Seq<u64>>, m: u64, i: int, j: int) -> bool {
    &&& exists|r: int, c: int| #[trigger] is_cell(grid, r, c) && before(r, c, i, j) && grid[r][c] == m
    &&& forall|r: int, c: int| #[trigger] is_cell(grid, r, c) && before(r, c, i, j) ==> grid[r][c] <= m
}

/// Whether any cell comes before cell `(i, j)`.
spec fn any_before(grid: Seq<Seq<u64>>, i: int, j: int) -> bool {
    exists|r: int, c: int| #[trigger] is_cell(grid, r, c) && before(r, c, i, j)
}

/// The smallest and the largest sample of `samples`, where it has any.
fn extremes(samples: &Vec<Vec<u64>>) -> (out: Option<(u64, u64)>)
    ensures
        match out {
            Some((lo, hi)) => is_lowest(rows_of(samples@), lo) && is_highest(rows_of(samples@), hi),
            None => forall|r: int, c: int| !is_cell(rows_of(samples@), r, c),
        },
{
    let ghost grid = rows_of(samples@);
    let mut seen = false;
    let mut lo: u64 = 0;
    let mut hi: u64 = 0;
    let mut i: usize = 0;
    while i < samples.len()
        invariant
            i <= samples.len(),
            grid == rows_of(samples@),
            seen == any_before(grid, i as int, 0),
            seen ==> lowest_before(grid, lo, i as int, 0) && highest_before(grid, hi, i as int, 0),
        decreases samples.len() - i,
    {
        let row = &samples[i];
        let mut j: usize = 0;
        while j < row.len()
            invariant
                i < samples.len(),
                j <= row.len(),
                row@ == grid[i as int],
                grid == rows_of(samples@),
                seen == any_before(grid, i as int, j as int),
                seen ==> lowest_before(grid, lo, i as int, j as int) && highest_before(
                    grid,
                    hi,
                    i as int,
                    j as int,
                ),
            decreases row.len() - j,
        {
            let a = row[j];
            proof {
                assert(is_cell(grid, i as int, j as int) && before(i as int, j as int, i as int, j + 1));
                assert forall|r: int, c: int| before(r, c, i as int, j + 1) implies before(
                    r,
                    c,
                    i as int,
                    j as int,
                ) || (r == i && c == j) by {}
            }
            if !seen {
                lo = a;
                hi = a;
                seen = true;
            } else {
                if a < lo {
                    lo = a;
                }
                if a > hi {
                    hi = a;
                }
            }
            j = j + 1;
        }
        proof {
            assert forall|r: int, c: int| #[trigger]
                is_cell(grid, r, c) implies (before(r, c, i as int, j as int) <==> before(
                r,
                c,
                i + 1,
                0,
            )) by {}
        }
        i = i + 1;
    }
    if seen {
        proof {
            assert forall|r: int, c: int| #[trigger] is_cell(grid, r, c) implies before(
                r,
                c,
                i as int,
                0,
            ) by {}
        }
        Some((lo, hi))
    } else {
        None
    }
}

/// Turns a grid of samples into a heatmap of the same shape. Each cell is
/// scaled between the smallest and the largest sample of the whole grid;
/// where all samples are equal, every cell is 0.
pub fn normalize(samples: &Vec<Vec<u64>>) -> (out: Vec<Vec<u8>>)
    ensures
        rows_of(out@) == normalized(rows_of(samples@)),
{
    let ghost grid = rows_of(samples@);
    let (lo, hi) = match extremes(samples) {
        Some(pair) => pair,
        None => (0, 0),
    };
    proof {
        if exists|r: int, c: int| is_cell(grid, r, c) {
            lemma_extremes_unique(grid, lo, hi);
        }
    }
    let mut out: Vec<Vec<u8>> = Vec::new();
    let mut i: usize = 0;
    while i < samples.len()
        invariant
            i <= samples.len(),
            grid == rows_of(samples@),
            out@.len() == i,
            (exists|r: int, c: int| is_cell(grid, r, c)) ==> lo == lowest(grid) && hi == highest(
                grid,
            ),
            forall|r: int| 0 <= r < i ==> (#[trigger] out@[r])@ == normalized(grid)[r],
        decreases samples.len() - i,
    {
        let row = &samples[i];
        let mut cells: Vec<u8> = Vec::new();
        let mut j: usize = 0;
        while j < row.len()
            invariant
                i < samples.len(),
                j <= row.len(),
                row@ == grid[i as int],
                grid == rows_of(samples@),
                cells@.len() == j,
                (exists|r: int, c: int| is_cell(grid, r, c)) ==> lo == lowest(grid) && hi
                    == highest(grid),
                forall|c: int| 0 <= c < j ==> #[trigger] cells@[c] == heat(grid, i as int, c) as u8,
            decreases row.len() - j,
        {
            assert(is_cell(grid, i as int, j as int));
            cells.push(scale_of(row[j], lo, hi));
            j = j + 1;
        }
        out.push(cells);
        i = i + 1;
    }
    out
}

/// The bucket that a cell is coloured by: cells above 100 count as 100, and
/// each bucket holds two neighbouring values and is named by the lower one.
pub open spec fn bucket(value: u8) -> u8 {
    let v = if value > HEAT_MAX { HEAT_MAX } else { value };
    ((v / BUCKET_WIDTH) * BUCKET_WIDTH) as u8
}

/// Computes the bucket of a cell.
pub fn heat_bucket(value: u8) -> (out: u8)
    ensures
        out == bucket(value),
        out <= HEAT_MAX,
        out % BUCKET_WIDTH == 0,
{
    let v = if value > HEAT_MAX { HEAT_MAX } else { value };
    (v / BUCKET_WIDTH) * BUCKET_WIDTH
}

/// A heatmap has the shape of the grid that it was made from, and no cell of
/// it is above 100.
pub proof fn lemma_normalized_bounds(grid: Seq<Seq<u64>>)
    ensures
        normalized(grid).len() == grid.len(),
        forall|r: int| 0 <= r < grid.len() ==> (#[trigger] normalized(grid)[r]).len() == grid[r].len(),
        forall|r: int, c: int| #[trigger]
            is_cell(normalized(grid), r, c) ==> normalized(grid)[r][c] <= HEAT_MAX,
{
    assert forall|r: int, c: int| #[trigger] is_cell(normalized(grid), r, c) implies normalized(
        grid,
    )[r][c] <= HEAT_MAX by {
        lemma_scale_bounds(grid[r][c], lowest(grid), highest(grid));
    }
}

/// Where every sample of a grid is the same, every cell of its heatmap is 0.
pub proof fn lemma_uniform_grid_is_cold(grid: Seq<Seq<u64>>, v: u64)
    requires
        forall|r: int, c: int| #[trigger] is_cell(grid, r, c) ==> grid[r][c] == v,
    ensures
        forall|r: int, c: int| #[trigger] is_cell(grid, r, c) ==> normalized(grid)[r][c] == 0,
{
    assert forall|r: int, c: int| #[trigger] is_cell(grid, r, c) implies normalized(grid)[r][c]
        == 0 by {
        lemma_extremes_unique(grid, v, v);
    }
}

/// Where the samples of a grid differ, a cell that holds the smallest sample
/// has heat 0 and one that holds the largest has heat 100.
pub proof fn lemma_extremes_heat(grid: Seq<Seq<u64>>, lo: u64, hi: u64, r: int, c: int)
    requires
        is_lowest(grid, lo),
        is_highest(grid, hi),
        lo < hi,
        is_cell(grid, r, c),
    ensures
        grid[r][c] == lo ==> normalized(grid)[r][c] == 0,
        grid[r][c] == hi ==> normalized(grid)[r][c] == 100,
{
    lemma_extremes_unique(grid, lo, hi);
}

/// The largest whole number up to `k` whose square is at most `a`.
pub open spec fn root_upto(a: nat, k: nat) -> nat
    decreases k,
{
    if k == 0 {
        0
    } else if k * k <= a {
        k
    } else {
        root_upto(a, (k - 1) as nat)
    }
}

/// The whole part of the square root of `a`, or 100 where that is more.
pub open spec fn capped_root(a: nat) -> nat {
    root_upto(a, HEAT_MAX as nat)
}

/// The row that a frame adds to the heatmap of a running capture: for each
/// subcarrier the whole part of its amplitude, or 100 where that is more.
pub open spec fn live_row(values: Seq<i32>) -> Seq<u8> {
    Seq::new(
        (values.len() / 2) as nat,
        |k: int| capped_root(squared_amplitude(values[2 * k], values[2 * k + 1])) as u8,
    )
}

/// What `root_upto` gives is the whole part of the square root, cut off at
/// `k`.
pub proof fn lemma_root_upto(a: nat, k: nat)
    ensures
        root_upto(a, k) <= k,
        root_upto(a, k) * root_upto(a, k) <= a,
        root_upto(a, k) < k ==> a < (root_upto(a, k) + 1) * (root_upto(a, k) + 1),
    decreases k,
{
    if k > 0 && k * k > a {
        lemma_root_upto(a, (k - 1) as nat);
    } else if k > 0 {
        assert(root_upto(a, k) * root_upto(a, k) == k * k);
    }
}

/// The square of a number up to 100.
fn square(r: u64) -> (out: u64)
    requires
        r <= 100,
    ensures
        out == r * r,
{
    assert(r * r <= 10000) by (nonlinear_arith)
        requires
            r <= 100,
    ;
    r * r
}

/// Computes `capped_root`.
pub fn capped_root_of(a: u64) -> (out: u8)
    ensures
        out == capped_root(a as nat),
        out <= HEAT_MAX,
{
    let mut r: u64 = 100;
    while r > 0 && square(r) > a
        invariant
            r <= 100,
            root_upto(a as nat, 100) == root_upto(a as nat, r as nat),
        decreases r,
    {
        r = r - 1;
    }
    proof {
        lemma_root_upto(a as nat, r as nat);
    }
    r as u8
}

/// Computes the row that `packet` adds to the heatmap of a running capture.
pub fn live_row_of(packet: &CsiPacket) -> (out: Vec<u8>)
    ensures
        out@ == live_row(packet.csi_values@),
{
    let n = packet.csi_values.len() / 2;
    let mut out: Vec<u8> = Vec::new();
    let mut k: usize = 0;
    while k < n
        invariant
            k <= n,
            n == packet.csi_values@.len() / 2,
            2 * n <= packet.csi_values.len(),
            out@ == live_row(packet.csi_values@).take(k as int),
        decreases n - k,
    {
        let a = squared_amplitude_of(packet.csi_values[2 * k], packet.csi_values[2 * k + 1]);
        out.push(capped_root_of(a));
        k = k + 1;
    }
    out
}

/// A copy of `rows`, row for row.
pub fn copy_rows(rows: &[Vec<u8>]) -> (out: Vec<Vec<u8>>)
    ensures
        rows_of(out@) == rows_of(rows@),
{
    let mut out: Vec<Vec<u8>> = Vec::new();
    let mut i: usize = 0;
    while i < rows.len()
        invariant
            i <= rows.len(),
            out@.len() == i,
            forall|r: int| 0 <= r < i ==> (#[trigger] out@[r])@ == rows@[r]@,
        decreases rows.len() - i,
    {
        let row = rows[i].clone();
        out.push(row);
        i = i + 1;
    }
    out
}

} // verus!
