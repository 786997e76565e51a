//! The weavability rule: no thread may float over too many crossings.
//!
//! A black pixel lifts the warp thread, a white one leaves the weft on top.
//! Along a row black runs are cut short, down a column white runs are.

use vstd::prelude::*;
use crate::grid::{is_binary, is_raster, lemma_cell_index, lemma_index_cell};

verus! {

/// How long a black run in a row may grow before it is cut.
#[derive(Clone, Copy, Debug, PartialEq, Eq)]
pub enum RunPolicy {
    /// A run is cut when it reaches `limit`, in every row.
    Flat { limit: u32 },
    /// A run is cut when it reaches `even` in rows 0, 2, 4, ... and when it
    /// reaches `odd` in rows 1, 3, 5, ...
    RowParity { even: u32, odd: u32 },
}

impl RunPolicy {
    /// The run length at which row `y` is cut.
    pub open spec fn limit_at(self, y: int) -> int {
        match self {
            RunPolicy::Flat { limit } => limit as int,
            RunPolicy::RowParity { even, odd } => if y % 2 == 0 {
                even as int
            } else {
                odd as int
            },
        }
    }

    /// Every row has a limit of at least one.
    pub open spec fn is_positive(self) -> bool {
        match self {
            RunPolicy::Flat { limit } => limit >= 1,
            RunPolicy::RowParity { even, odd } => even >= 1 && odd >= 1,
        }
    }

    /// The run length at which row `y` is cut.
    pub fn limit_for_row(&self, y: u32) -> (r: u32)
        ensures
            r == self.limit_at(y as int),
    {
        match self {
            RunPolicy::Flat { limit } => *limit,
            RunPolicy::RowParity { even, odd } => if y % 2 == 0 {
                *even
            } else {
                *odd
            },
        }
    }
}

/// The settings of the enforcer: the policy for rows, the limit for columns
/// and how often the pair of passes is run.
#[derive(Clone, Copy, Debug, PartialEq, Eq)]
pub struct WeaveRules {
    pub rows: RunPolicy,
    pub column_limit: u32,
    pub passes: u32,
}

impl WeaveRules {
    /// The limits are at least one and at least one round is run.
    pub open spec fn is_positive(self) -> bool {
        self.rows.is_positive() && self.column_limit >= 1 && self.passes >= 1
    }

    /// The rules of the loom as it stands: black runs are cut at five in even
    /// rows and at four in odd rows, white runs down a column at five, and
    /// the two passes are run three times over.
    pub fn standard() -> (r: WeaveRules)
        ensures
            r == (WeaveRules {
                rows: RunPolicy::RowParity { even: 5, odd: 4 },
                column_limit: 5,
                passes: 3,
            }),
            r.is_positive(),
    {
        WeaveRules { rows: RunPolicy::RowParity { even: 5, odd: 4 }, column_limit: 5, passes: 3 }
    }

    /// One limit for every row, in place of the alternating one.
    pub fn flat(limit: u32, column_limit: u32, passes: u32) -> (r: WeaveRules)
        ensures
            r == (WeaveRules { rows: RunPolicy::Flat { limit }, column_limit, passes }),
    {
        WeaveRules { rows: RunPolicy::Flat { limit }, column_limit, passes }
    }
}

/// The length of the black run that ends at the cell `(x, y)`, along its row.
pub open spec fn black_run(s: Seq<u8>, width: int, y: int, x: int) -> int
    decreases x + 1,
{
    if x < 0 || s[y * width + x] != 0 {
        0
    } else {
        1 + black_run(s, width, y, x - 1)
    }
}

/// The length of the white (non-black) run that ends at the cell `(x, y)`,
/// down its column.
pub open spec fn white_run(s: Seq<u8>, width: int, x: int, y: int) -> int
    decreases y + 1,
{
    if y < 0 || s[y * width + x] == 0 {
        0
    } else {
        1 + white_run(s, width, x, y - 1)
    }
}

/// No black run in a row reaches the limit of its row.
pub open spec fn rows_bound(s: Seq<u8>, width: int, height: int, policy: RunPolicy) -> bool {
    forall|x: int, y: int|
        0 <= x < width && 0 <= y < height ==> #[trigger] black_run(s, width, y, x)
            < policy.limit_at(y)
}

/// No white run in a column reaches the limit.
pub open spec fn columns_bound(s: Seq<u8>, width: int, height: int, limit: int) -> bool {
    forall|x: int, y: int|
        0 <= x < width && 0 <= y < height ==> #[trigger] white_run(s, width, x, y) < limit
}

/// The scan counter of the row pass after the cell `(x, y)`: the black
/// pixels seen since the last white pixel or the last cut.
pub open spec fn row_count(s: Seq<u8>, width: int, y: int, x: int, limit: int) -> int
    decreases x + 1,
{
    if x < 0 || s[y * width + x] != 0 {
        0
    } else if row_count(s, width, y, x - 1, limit) + 1 == limit {
        0
    } else {
        row_count(s, width, y, x - 1, limit) + 1
    }
}

/// The row pass turns the cell `(x, y)` white: it is black and completes a
/// run of the limit's length.
pub open spec fn row_cut(s: Seq<u8>, width: int, y: int, x: int, limit: int) -> bool {
    s[y * width + x] == 0 && row_count(s, width, y, x - 1, limit) + 1 == limit
}

/// The raster after the row pass.
pub open spec fn bound_rows(s: Seq<u8>, width: int, policy: RunPolicy) -> Seq<u8> {
    Seq::new(
        s.len(),
        |i: int|
            if row_cut(s, width, i / width, i % width, policy.limit_at(i / width)) {
                255u8
            } else {
                s[i]
            },
    )
}

/// The scan counter of the column pass after the cell `(x, y)`: the white
/// pixels seen since the last black pixel or the last cut.
pub open spec fn column_count(s: Seq<u8>, width: int, x: int, y: int, limit: int) -> int
    decreases y + 1,
{
    if y < 0 || s[y * width + x] == 0 {
        0
    } else if column_count(s, width, x, y - 1, limit) + 1 == limit {
        0
    } else {
        column_count(s, width, x, y - 1, limit) + 1
    }
}

/// The column pass turns the cell `(x, y)` black: it is white and completes
/// a run of the limit's length.
pub open spec fn column_cut(s: Seq<u8>, width: int, x: int, y: int, limit: int) -> bool {
    s[y * width + x] != 0 && column_count(s, width, x, y - 1, limit) + 1 == limit
}

/// The raster after the column pass.
pub open spec fn bound_columns(s: Seq<u8>, width: int, limit: int) -> Seq<u8> {
    Seq::new(
        s.len(),
        |i: int|
            if column_cut(s, width, i % width, i / width, limit) {
                0u8
            } else {
                s[i]
            },
    )
}

/// One round of the enforcer: the row pass over the whole raster, then the
/// column pass over the whole raster.
pub open spec fn round(s: Seq<u8>, width: int, rules: WeaveRules) -> Seq<u8> {
    bound_columns(bound_rows(s, width, rules.rows), width, rules.column_limit as int)
}

/// The raster after `n` rounds.
pub open spec fn enforced(s: Seq<u8>, width: int, rules: WeaveRules, n: nat) -> Seq<u8>
    decreases n,
{
    if n == 0 {
        s
    } else {
        round(enforced(s, width, rules, (n - 1) as nat), width, rules)
    }
}

/// After the row pass the black run that ends at a cell is what the scan
/// counter was there, and that stays under the limit.
pub proof fn lemma_row_runs(s: Seq<u8>, width: int, height: int, policy: RunPolicy, y: int, x: int)
    requires
        is_raster(s, width, height),
        0 <= y < height,
        -1 <= x < width,
        policy.limit_at(y) >= 1,
    ensures
        black_run(bound_rows(s, width, policy), width, y, x) == row_count(
            s,
            width,
            y,
            x,
            policy.limit_at(y),
        ),
        0 <= row_count(s, width, y, x, policy.limit_at(y)) < policy.limit_at(y),
    decreases x + 1,
{
    if x >= 0 {
        lemma_row_runs(s, width, height, policy, y, x - 1);
        lemma_cell_index(width, height, x, y);
    }
}

/// After the column pass the white run that ends at a cell is what the scan
/// counter was there, and that stays under the limit.
pub proof fn lemma_column_runs(s: Seq<u8>, width: int, height: int, limit: int, x: int, y: int)
    requires
        is_raster(s, width, height),
        0 <= x < width,
        -1 <= y < height,
        limit >= 1,
    ensures
        white_run(bound_columns(s, width, limit), width, x, y) == column_count(
            s,
            width,
            x,
            y,
            limit,
        ),
        0 <= column_count(s, width, x, y, limit) < limit,
    decreases y + 1,
{
    if y >= 0 {
        lemma_column_runs(s, width, height, limit, x, y - 1);
        lemma_cell_index(width, height, x, y);
    }
}

/// The row pass leaves no black run that reaches its row's limit.
pub proof fn lemma_rows_bound(s: Seq<u8>, width: int, height: int, policy: RunPolicy)
    requires
        is_raster(s, width, height),
        policy.is_positive(),
    ensures
        rows_bound(bound_rows(s, width, policy), width, height, policy),
{
    let t = bound_rows(s, width, policy);
    assert forall|x: int, y: int| 0 <= x < width && 0 <= y < height implies #[trigger] black_run(
        t,
        width,
        y,
        x,
    ) < policy.limit_at(y) by {
        lemma_row_runs(s, width, height, policy, y, x);
    }
}

/// The column pass leaves no white run that reaches the limit.
pub proof fn lemma_columns_bound(s: Seq<u8>, width: int, height: int, limit: int)
    requires
        is_raster(s, width, height),
        limit >= 1,
    ensures
        columns_bound(bound_columns(s, width, limit), width, height, limit),
{
    let t = bound_columns(s, width, limit);
    assert forall|x: int, y: int| 0 <= x < width && 0 <= y < height implies #[trigger] white_run(
        t,
        width,
        x,
        y,
    ) < limit by {
        lemma_column_runs(s, width, height, limit, x, y);
    }
}

/// In a raster whose rows keep their limits the scan counter of the row pass
/// is the black run itself, and the pass cuts nowhere.
pub proof fn lemma_row_settled(s: Seq<u8>, width: int, height: int, policy: RunPolicy, y: int, x: int)
    requires
        is_raster(s, width, height),
        rows_bound(s, width, height, policy),
        0 <= y < height,
        -1 <= x < width,
    ensures
        row_count(s, width, y, x, policy.limit_at(y)) == black_run(s, width, y, x),
        x >= 0 ==> !row_cut(s, width, y, x, policy.limit_at(y)),
    decreases x + 1,
{
    if x >= 0 {
        lemma_row_settled(s, width, height, policy, y, x - 1);
        assert(black_run(s, width, y, x) < policy.limit_at(y));
    }
}

/// In a raster whose columns keep the limit the scan counter of the column
/// pass is the white run itself, and the pass cuts nowhere.
pub proof fn lemma_column_settled(s: Seq<u8>, width: int, height: int, limit: int, x: int, y: int)
    requires
        is_raster(s, width, height),
        columns_bound(s, width, height, limit),
        0 <= x < width,
        -1 <= y < height,
    ensures
        column_count(s, width, x, y, limit) == white_run(s, width, x, y),
        y >= 0 ==> !column_cut(s, width, x, y, limit),
    decreases y + 1,
{
    if y >= 0 {
        lemma_column_settled(s, width, height, limit, x, y - 1);
        assert(white_run(s, width, x, y) < limit);
    }
}

/// The row pass changes nothing in a raster whose rows keep their limits.
pub proof fn lemma_rows_fixed(s: Seq<u8>, width: int, height: int, policy: RunPolicy)
    requires
        is_raster(s, width, height),
        rows_bound(s, width, height, policy),
    ensures
        bound_rows(s, width, policy) == s,
{
    let t = bound_rows(s, width, policy);
    assert forall|i: int| 0 <= i < s.len() implies t[i] == s[i] by {
        assert(width > 0) by (nonlinear_arith)
            requires
                0 < width * height,
                0 <= width,
        ;
        lemma_index_cell(width, height, i);
        lemma_row_settled(s, width, height, policy, i / width, i % width);
    }
    assert(t =~= s);
}

/// The column pass changes nothing in a raster whose columns keep the limit.
pub proof fn lemma_columns_fixed(s: Seq<u8>, width: int, height: int, limit: int)
    requires
        is_raster(s, width, height),
        columns_bound(s, width, height, limit),
    ensures
        bound_columns(s, width, limit) == s,
{
    let t = bound_columns(s, width, limit);
    assert forall|i: int| 0 <= i < s.len() implies t[i] == s[i] by {
        assert(width > 0) by (nonlinear_arith)
            requires
                0 < width * height,
                0 <= width,
        ;
        lemma_index_cell(width, height, i);
        lemma_column_settled(s, width, height, limit, i % width, i / width);
    }
    assert(t =~= s);
}

/// Idempotence: on a raster in which every row and every column already
/// keeps its limit, any number of rounds changes nothing.
pub proof fn lemma_enforcer_idempotent(s: Seq<u8>, width: int, height: int, rules: WeaveRules, n: nat)
    requires
        is_raster(s, width, height),
        rows_bound(s, width, height, rules.rows),
        columns_bound(s, width, height, rules.column_limit as int),
    ensures
        enforced(s, width, rules, n) == s,
    decreases n,
{
    if n > 0 {
        lemma_enforcer_idempotent(s, width, height, rules, (n - 1) as nat);
        lemma_rows_fixed(s, width, height, rules.rows);
        lemma_columns_fixed(s, width, height, rules.column_limit as int);
    }
}

/// Rounds keep the raster's size, and after at least one round no white run
/// in a column reaches the limit.
pub proof fn lemma_enforced_columns(s: Seq<u8>, width: int, height: int, rules: WeaveRules, n: nat)
    requires
        is_raster(s, width, height),
    ensures
        is_raster(enforced(s, width, rules, n), width, height),
        n >= 1 && rules.column_limit >= 1 ==> columns_bound(
            enforced(s, width, rules, n),
            width,
            height,
            rules.column_limit as int,
        ),
    decreases n,
{
    if n > 0 {
        lemma_enforced_columns(s, width, height, rules, (n - 1) as nat);
        let before = enforced(s, width, rules, (n - 1) as nat);
        let mid = bound_rows(before, width, rules.rows);
        if rules.column_limit >= 1 {
            lemma_columns_bound(mid, width, height, rules.column_limit as int);
        }
    }
}

/// Rounds keep a black-and-white raster black and white.
pub proof fn lemma_enforced_binary(s: Seq<u8>, width: int, height: int, rules: WeaveRules, n: nat)
    requires
        is_raster(s, width, height),
        is_binary(s),
    ensures
        is_binary(enforced(s, width, rules, n)),
    decreases n,
{
    if n > 0 {
        lemma_enforced_binary(s, width, height, rules, (n - 1) as nat);
        lemma_enforced_columns(s, width, height, rules, (n - 1) as nat);
        let before = enforced(s, width, rules, (n - 1) as nat);
        let mid = bound_rows(before, width, rules.rows);
        assert(is_binary(mid)) by {
            assert forall|i: int| 0 <= i < mid.len() implies #[trigger] mid[i] == 0u8 || mid[i] == 255u8 by {
                assert(before[i] == 0u8 || before[i] == 255u8);
            }
        }
        let after = bound_columns(mid, width, rules.column_limit as int);
        assert forall|i: int| 0 <= i < after.len() implies #[trigger] after[i] == 0u8 || after[i] == 255u8 by {
            assert(mid[i] == 0u8 || mid[i] == 255u8);
        }
    }
}

/// A round whose row pass leaves every column within the limit ends with
/// every row and every column within its limit: the column pass then has
/// nothing to cut, and so it lengthens no black run.
pub proof fn lemma_round_settles(s: Seq<u8>, width: int, height: int, rules: WeaveRules)
    requires
        is_raster(s, width, height),
        rules.rows.is_positive(),
        columns_bound(bound_rows(s, width, rules.rows), width, height, rules.column_limit as int),
    ensures
        round(s, width, rules) == bound_rows(s, width, rules.rows),
        rows_bound(round(s, width, rules), width, height, rules.rows),
        columns_bound(round(s, width, rules), width, height, rules.column_limit as int),
{
    let mid = bound_rows(s, width, rules.rows);
    lemma_rows_bound(s, width, height, rules.rows);
    lemma_columns_fixed(mid, width, height, rules.column_limit as int);
}

/// The row pass, in place: along each row, from the left, the black pixel
/// that completes a run of the row's limit is turned white and the count
/// starts again.
pub fn bind_rows(img: &mut Vec<u8>, width: u32, height: u32, policy: &RunPolicy)
    requires
        is_raster(old(img)@, width as int, height as int),
    ensures
        final(img)@ == bound_rows(old(img)@, width as int, *policy),
        is_raster(final(img)@, width as int, height as int),
        policy.is_positive() ==> rows_bound(final(img)@, width as int, height as int, *policy),
        is_binary(old(img)@) ==> is_binary(final(img)@),
{
    let ghost w = width as int;
    let ghost h = height as int;
    let ghost target = bound_rows(old(img)@, w, *policy);
    let len: usize = img.len();
    let mut y: u32 = 0;
    let mut index: usize = 0;
    while y < height
        invariant
            w == width,
            h == height,
            len == w * h,
            target == bound_rows(old(img)@, w, *policy),
            0 <= y <= height,
            index == y * w,
            img@.len() == old(img)@.len() == len,
            forall|j: int| 0 <= j < index ==> #[trigger] img@[j] == target[j],
            forall|j: int| index <= j < len ==> #[trigger] img@[j] == old(img)@[j],
        decreases height - y,
    {
        let limit = policy.limit_for_row(y);
        let mut count: u32 = 0;
        let mut x: u32 = 0;
        while x < width
            invariant
                w == width,
                h == height,
                len == w * h,
                target == bound_rows(old(img)@, w, *policy),
                0 <= y < height,
                0 <= x <= width,
                limit == policy.limit_at(y as int),
                index == y * w + x,
                0 <= count <= x,
                count == row_count(old(img)@, w, y as int, x - 1, limit as int),
                img@.len() == old(img)@.len() == len,
                forall|j: int| 0 <= j < index ==> #[trigger] img@[j] == target[j],
                forall|j: int| index <= j < len ==> #[trigger] img@[j] == old(img)@[j],
            decreases width - x,
        {
            proof {
                lemma_cell_index(w, h, x as int, y as int);
            }
            if img[index] == 0 {
                count = count + 1;
                if count == limit {
                    img[index] = 255;
                    count = 0;
                }
            } else {
                count = 0;
            }
            index = index + 1;
            x = x + 1;
        }
        proof {
            assert((y + 1) * w == y * w + w) by (nonlinear_arith);
        }
        y = y + 1;
    }
    proof {
        assert(index == w * h) by (nonlinear_arith)
            requires
                index == y * w,
                y == h,
        ;
        assert(img@ =~= target);
        if policy.is_positive() {
            lemma_rows_bound(old(img)@, w, h, *policy);
        }
    }
}

/// The flat index `i` splits into a column and a row of the raster.
pub open spec fn is_cell(i: int, width: int, height: int) -> bool {
    0 <= i % width < width && 0 <= i / width < height && i == (i / width) * width + i % width
}

/// A cell that the column pass has left behind it when it stands at `(x, y)`.
pub open spec fn column_done(i: int, width: int, x: int, y: int) -> bool {
    i % width < x || (i % width == x && i / width < y)
}

/// The column pass, in place: down each column, from the top, the white
/// pixel that completes a run of the limit's length is turned black and the
/// count starts again.
pub fn bind_columns(img: &mut Vec<u8>, width: u32, height: u32, limit: u32)
    requires
        is_raster(old(img)@, width as int, height as int),
    ensures
        final(img)@ == bound_columns(old(img)@, width as int, limit as int),
        is_raster(final(img)@, width as int, height as int),
        limit >= 1 ==> columns_bound(final(img)@, width as int, height as int, limit as int),
        is_binary(old(img)@) ==> is_binary(final(img)@),
{
    let ghost w = width as int;
    let ghost h = height as int;
    let ghost target = bound_columns(old(img)@, w, limit as int);
    let len: usize = img.len();
    let mut x: u32 = 0;
    proof {
        assert forall|j: int| 0 <= j < len implies is_cell(j, w, h) by {
            assert(w > 0) by (nonlinear_arith)
                requires
                    0 < w * h,
                    0 <= w,
            ;
            lemma_index_cell(w, h, j);
        }
    }
    while x < width
        invariant
            w == width,
            h == height,
            len == w * h,
            target == bound_columns(old(img)@, w, limit as int),
            0 <= x <= width,
            img@.len() == old(img)@.len() == len,
            forall|j: int|
                0 <= j < len ==> #[trigger] img@[j] == (if column_done(j, w, x as int, 0) {
                    target[j]
                } else {
                    old(img)@[j]
                }) && is_cell(j, w, h),
        decreases width - x,
    {
        let mut count: u32 = 0;
        let mut y: u32 = 0;
        while y < height
            invariant
                w == width,
                h == height,
                len == w * h,
                target == bound_columns(old(img)@, w, limit as int),
                0 <= x < width,
                0 <= y <= height,
                0 <= count <= y,
                count == column_count(old(img)@, w, x as int, y - 1, limit as int),
                img@.len() == old(img)@.len() == len,
                forall|j: int|
                    0 <= j < len ==> #[trigger] img@[j] == (if column_done(j, w, x as int, y as int) {
                        target[j]
                    } else {
                        old(img)@[j]
                    }) && is_cell(j, w, h),
            decreases height - y,
        {
            proof {
                lemma_cell_index(w, h, x as int, y as int);
                assert(0 <= y * w) by (nonlinear_arith)
                    requires
                        0 <= y,
                        0 <= w,
                ;
            }
            let index: usize = (y as usize) * (width as usize) + (x as usize);
            assert(!column_done(index as int, w, x as int, y as int));
            if img[index] == 0 {
                count = 0;
            } else {
                count = count + 1;
                if count == limit {
                    img[index] = 0;
                    count = 0;
                }
            }
            y = y + 1;
        }
        x = x + 1;
    }
    proof {
        assert(img@ =~= target);
        if limit >= 1 {
            lemma_columns_bound(old(img)@, w, h, limit as int);
        }
    }
}

/// The rules of the loom as it stands: rows alternate between the limits
/// five and four, columns have the limit five, three rounds are run.
pub open spec fn standard_rules() -> WeaveRules {
    WeaveRules { rows: RunPolicy::RowParity { even: 5, odd: 4 }, column_limit: 5, passes: 3 }
}

/// One round of the enforcer under the standing rules of the loom, in place:
/// the row pass with the limits five (even rows) and four (odd rows), then
/// the column pass with the limit five.
pub fn loom_filter(img: &mut Vec<u8>, width: u32, height: u32)
    requires
        is_raster(old(img)@, width as int, height as int),
    ensures
        final(img)@ == round(old(img)@, width as int, standard_rules()),
        is_raster(final(img)@, width as int, height as int),
        columns_bound(final(img)@, width as int, height as int, 5),
        is_binary(old(img)@) ==> is_binary(final(img)@),
        rows_bound(old(img)@, width as int, height as int, standard_rules().rows) && columns_bound(
            old(img)@,
            width as int,
            height as int,
            5,
        ) ==> final(img)@ == old(img)@,
{
    let rules = WeaveRules::standard();
    proof {
        if rows_bound(old(img)@, width as int, height as int, rules.rows) && columns_bound(
            old(img)@,
            width as int,
            height as int,
            5,
        ) {
            lemma_enforcer_idempotent(old(img)@, width as int, height as int, rules, 1);
            assert(enforced(old(img)@, width as int, rules, 1) == round(
                enforced(old(img)@, width as int, rules, 0),
                width as int,
                rules,
            ));
        }
    }
    bind_rows(img, width, height, &rules.rows);
    bind_columns(img, width, height, rules.column_limit);
}

/// The enforcer, in place: `rules.passes` rounds, each the row pass over the
/// whole raster and then the column pass over the whole raster.
pub fn enforce_weavability(img: &mut Vec<u8>, width: u32, height: u32, rules: &WeaveRules)
    requires
        is_raster(old(img)@, width as int, height as int),
    ensures
        final(img)@ == enforced(old(img)@, width as int, *rules, rules.passes as nat),
        is_raster(final(img)@, width as int, height as int),
        rules.passes >= 1 && rules.column_limit >= 1 ==> columns_bound(
            final(img)@,
            width as int,
            height as int,
            rules.column_limit as int,
        ),
        is_binary(old(img)@) ==> is_binary(final(img)@),
        rows_bound(old(img)@, width as int, height as int, rules.rows) && columns_bound(
            old(img)@,
            width as int,
            height as int,
            rules.column_limit as int,
        ) ==> final(img)@ == old(img)@,
{
    proof {
        if rows_bound(old(img)@, width as int, height as int, rules.rows) && columns_bound(
            old(img)@,
            width as int,
            height as int,
            rules.column_limit as int,
        ) {
            lemma_enforcer_idempotent(
                old(img)@,
                width as int,
                height as int,
                *rules,
                rules.passes as nat,
            );
        }
    }
    let mut n: u32 = 0;
    while n < rules.passes
        invariant
            0 <= n <= rules.passes,
            is_raster(old(img)@, width as int, height as int),
            is_raster(img@, width as int, height as int),
            img@ == enforced(old(img)@, width as int, *rules, n as nat),
            is_binary(old(img)@) ==> is_binary(img@),
        decreases rules.passes - n,
    {
        bind_rows(img, width, height, &rules.rows);
        bind_columns(img, width, height, rules.column_limit);
        n = n + 1;
    }
    proof {
        lemma_enforced_columns(old(img)@, width as int, height as int, *rules, rules.passes as nat);
    }
}

/// Whether every row of the raster keeps its limit on black runs.
pub fn rows_within_limits(img: &Vec<u8>, width: u32, height: u32, policy: &RunPolicy) -> (r: bool)
    requires
        is_raster(img@, width as int, height as int),
    ensures
        r == rows_bound(img@, width as int, height as int, *policy),
{
    let ghost w = width as int;
    let ghost h = height as int;
    let len: usize = img.len();
    let mut y: u32 = 0;
    let mut index: usize = 0;
    while y < height
        invariant
            w == width,
            h == height,
            len == w * h,
            img@.len() == len,
            0 <= y <= height,
            index == y * w,
            forall|xx: int, yy: int|
                0 <= xx < w && 0 <= yy < y ==> #[trigger] black_run(img@, w, yy, xx)
                    < policy.limit_at(yy),
        decreases height - y,
    {
        let limit = policy.limit_for_row(y);
        let mut run: u32 = 0;
        let mut x: u32 = 0;
        while x < width
            invariant
                w == width,
                h == height,
                len == w * h,
                img@.len() == len,
                0 <= y < height,
                0 <= x <= width,
                index == y * w + x,
                limit == policy.limit_at(y as int),
                0 <= run <= x,
                run == black_run(img@, w, y as int, x - 1),
                forall|xx: int, yy: int|
                    0 <= xx < w && 0 <= yy < y ==> #[trigger] black_run(img@, w, yy, xx)
                        < policy.limit_at(yy),
                forall|xx: int|
                    0 <= xx < x ==> #[trigger] black_run(img@, w, y as int, xx) < policy.limit_at(
                        y as int,
                    ),
            decreases width - x,
        {
            proof {
                lemma_cell_index(w, h, x as int, y as int);
            }
            if img[index] == 0 {
                run = run + 1;
            } else {
                run = 0;
            }
            if run >= limit {
                assert(!(black_run(img@, w, y as int, x as int) < policy.limit_at(y as int)));
                return false;
            }
            index = index + 1;
            x = x + 1;
        }
        proof {
            assert((y + 1) * w == y * w + w) by (nonlinear_arith);
        }
        y = y + 1;
    }
    true
}

/// Whether every column of the raster keeps the limit on white runs.
pub fn columns_within_limit(img: &Vec<u8>, width: u32, height: u32, limit: u32) -> (r: bool)
    requires
        is_raster(img@, width as int, height as int),
    ensures
        r == columns_bound(img@, width as int, height as int, limit as int),
{
    let ghost w = width as int;
    let ghost h = height as int;
    let len: usize = img.len();
    let mut x: u32 = 0;
    while x < width
        invariant
            w == width,
            h == height,
            len == w * h,
            img@.len() == len,
            0 <= x <= width,
            forall|xx: int, yy: int|
                0 <= xx < x && 0 <= yy < h ==> #[trigger] white_run(img@, w, xx, yy) < limit,
        decreases width - x,
    {
        let mut run: u32 = 0;
        let mut y: u32 = 0;
        while y < height
            invariant
                w == width,
                h == height,
                len == w * h,
                img@.len() == len,
                0 <= x < width,
                0 <= y <= height,
                0 <= run <= y,
                run == white_run(img@, w, x as int, y - 1),
                forall|xx: int, yy: int|
                    0 <= xx < x && 0 <= yy < h ==> #[trigger] white_run(img@, w, xx, yy) < limit,
                forall|yy: int| 0 <= yy < y ==> #[trigger] white_run(img@, w, x as int, yy) < limit,
            decreases height - y,
        {
            proof {
                lemma_cell_index(w, h, x as int, y as int);
                assert(0 <= y * w) by (nonlinear_arith)
                    requires
                        0 <= y,
                        0 <= w,
                ;
            }
            let index: usize = (y as usize) * (width as usize) + (x as usize);
            if img[index] == 0 {
                run = 0;
            } else {
                run = run + 1;
            }
            if run >= limit {
                assert(!(white_run(img@, w, x as int, y as int) < limit));
                return false;
            }
            y = y + 1;
        }
        x = x + 1;
    }
    true
}

/// Whether the raster is weavable under the rules: every row and every
/// column keeps its limit.
pub fn is_weavable(img: &Vec<u8>, width: u32, height: u32, rules: &WeaveRules) -> (r: bool)
    requires
        is_raster(img@, width as int, height as int),
    ensures
        r == (rows_bound(img@, width as int, height as int, rules.rows) && columns_bound(
            img@,
            width as int,
            height as int,
            rules.column_limit as int,
        )),
{
    rows_within_limits(img, width, height, &rules.rows) && columns_within_limit(
        img,
        width,
        height,
        rules.column_limit,
    )
}

} // verus!
