use vstd::prelude::*;
use crate::level_data::{find_layer, AuthoringError, LayerInstance};

verus! {

/// Marker for the wall-merging subsystem in the variant of the game whose
/// collision layer is named "Collision".
pub struct WallsPlugin;

/// Integer cell coordinates within a level layer's grid.
#[derive(Debug, Clone, Copy, PartialEq, Eq, Structural)]
pub struct GridCoords {
    pub x: i32,
    pub y: i32,
}

/// A maximal horizontal run of contiguous wall cells at a single row,
/// as inclusive column bounds.
#[derive(Debug, Clone, Copy, PartialEq, Eq, Structural)]
pub struct Plate {
    pub left: i32,
    pub right: i32,
}

/// An axis-aligned collision rectangle in grid-cell units; all four bounds
/// are inclusive, and rows grow from `bottom` to `top`.
#[derive(Debug, Clone, Copy, PartialEq, Eq, Structural)]
pub struct Rect {
    pub left: i32,
    pub right: i32,
    pub top: i32,
    pub bottom: i32,
}

/// The grid holds a wall cell at (x, y).
pub open spec fn wall_at(walls: Seq<GridCoords>, x: int, y: int) -> bool {
    exists|i: int| 0 <= i < walls.len() && walls[i].x == x && walls[i].y == y
}

/// Every listed wall cell lies inside the `width` x `height` grid.
pub open spec fn walls_in_bounds(walls: Seq<GridCoords>, width: int, height: int) -> bool {
    forall|i: int|
        0 <= i < walls.len() ==> 0 <= (#[trigger] walls[i]).x < width && 0 <= walls[i].y < height
}

/// Columns l..=r are a maximal run of wall cells in row y: all of them walls,
/// flanked by non-wall cells (or the grid edge) on both sides.
pub open spec fn run_at(walls: Seq<GridCoords>, y: int, l: int, r: int) -> bool {
    &&& l <= r
    &&& forall|x: int| l <= x <= r ==> wall_at(walls, x, y)
    &&& !wall_at(walls, l - 1, y)
    &&& !wall_at(walls, r + 1, y)
}

/// The rectangle covers cell (x, y).
pub open spec fn covers(rect: Rect, x: int, y: int) -> bool {
    rect.left <= x <= rect.right && rect.bottom <= y <= rect.top
}

/// Some rectangle of the sequence covers cell (x, y).
pub open spec fn covered(rects: Seq<Rect>, x: int, y: int) -> bool {
    exists|i: int| 0 <= i < rects.len() && covers(#[trigger] rects[i], x, y)
}

/// Every row slice of the rectangle is a maximal horizontal run, and the
/// rectangle cannot be extended one row below its bottom.
pub open spec fn rect_open_ok(walls: Seq<GridCoords>, rect: Rect) -> bool {
    &&& rect.left <= rect.right
    &&& 0 <= rect.bottom <= rect.top
    &&& forall|yy: int|
        rect.bottom <= yy <= rect.top ==> run_at(walls, yy, rect.left as int, rect.right as int)
    &&& (rect.bottom == 0 || !run_at(walls, rect.bottom - 1, rect.left as int, rect.right as int))
}

/// A finished rectangle: maximal row slices, and extendable neither one row
/// below its bottom nor one row above its top.
pub open spec fn rect_maximal(walls: Seq<GridCoords>, rect: Rect) -> bool {
    &&& rect_open_ok(walls, rect)
    &&& !run_at(walls, rect.top + 1, rect.left as int, rect.right as int)
}

/// Two rectangles share their column span and bottom row.
pub open spec fn same_key(a: Rect, b: Rect) -> bool {
    a.left == b.left && a.right == b.right && a.bottom == b.bottom
}

/// The rectangle `a` occurs in the sequence.
pub open spec fn rect_in(rs: Seq<Rect>, a: Rect) -> bool {
    exists|j: int| 0 <= j < rs.len() && rs[j] == a
}

/// The merge contract as one predicate: the rectangles cover exactly the
/// wall cells of the grid, no cell twice, each rectangle finished (maximal
/// for the greedy row merge) and inside the grid.
pub open spec fn merged_ok(rects: Seq<Rect>, walls: Seq<GridCoords>, width: int, height: int) -> bool {
    &&& forall|x: int, y: int| wall_at(walls, x, y) <==> covered(rects, x, y)
    &&& forall|i: int, j: int, x: int, y: int|
        0 <= i < rects.len() && 0 <= j < rects.len() && #[trigger] covers(rects[i], x, y)
            && #[trigger] covers(rects[j], x, y) ==> i == j
    &&& forall|i: int| 0 <= i < rects.len() ==> rect_maximal(walls, #[trigger] rects[i])
    &&& forall|i: int|
        0 <= i < rects.len() ==> 0 <= (#[trigger] rects[i]).left && rects[i].left <= rects[i].right
            && rects[i].right < width && 0 <= rects[i].bottom && rects[i].bottom <= rects[i].top
            && rects[i].top < height
}

/// A well-formed plate list for row y: each plate is a maximal run inside the
/// grid, every wall cell of the row lies in one of them, and they are listed
/// strictly left to right.
pub open spec fn row_ok(ps: Seq<Plate>, walls: Seq<GridCoords>, y: int, width: int) -> bool {
    &&& forall|k: int|
        0 <= k < ps.len() ==> 0 <= (#[trigger] ps[k]).left && ps[k].right < width && run_at(
            walls,
            y,
            ps[k].left as int,
            ps[k].right as int,
        )
    &&& forall|x: int|
        0 <= x < width && wall_at(walls, x, y) ==> exists|k: int|
            0 <= k < ps.len() && (#[trigger] ps[k]).left <= x <= ps[k].right
    &&& forall|k1: int, k2: int|
        0 <= k1 < k2 < ps.len() ==> (#[trigger] ps[k1]).right < (#[trigger] ps[k2]).left
}

/// Two maximal runs of one row that share a column are the same run.
proof fn lemma_runs_overlap_equal(
    walls: Seq<GridCoords>,
    y: int,
    l1: int,
    r1: int,
    l2: int,
    r2: int,
    x: int,
)
    requires
        run_at(walls, y, l1, r1),
        run_at(walls, y, l2, r2),
        l1 <= x <= r1,
        l2 <= x <= r2,
    ensures
        l1 == l2,
        r1 == r2,
{
    if l1 < l2 {
        assert(wall_at(walls, l2 - 1, y));
    }
    if l2 < l1 {
        assert(wall_at(walls, l1 - 1, y));
    }
    if r1 < r2 {
        assert(wall_at(walls, r1 + 1, y));
    }
    if r2 < r1 {
        assert(wall_at(walls, r2 + 1, y));
    }
}

/// In a well-formed plate list, every maximal run of the row appears as a
/// plate.
proof fn lemma_row_run_present(
    ps: Seq<Plate>,
    walls: Seq<GridCoords>,
    y: int,
    width: int,
    height: int,
    l: int,
    r: int,
)
    requires
        row_ok(ps, walls, y, width),
        walls_in_bounds(walls, width, height),
        run_at(walls, y, l, r),
    ensures
        exists|k: int| 0 <= k < ps.len() && (#[trigger] ps[k]).left == l && ps[k].right == r,
{
    assert(wall_at(walls, l, y));
    let i = choose|i: int| 0 <= i < walls.len() && walls[i].x == l && walls[i].y == y;
    assert(0 <= walls[i].x < width);
    let k = choose|k: int| 0 <= k < ps.len() && (#[trigger] ps[k]).left <= l <= ps[k].right;
    lemma_runs_overlap_equal(walls, y, ps[k].left as int, ps[k].right as int, l, r, l);
    assert(ps[k].left == l && ps[k].right == r);
}

/// Whether the grid holds a wall cell at (x, y).
fn contains_wall(walls: &Vec<GridCoords>, x: i32, y: i32) -> (r: bool)
    ensures
        r == wall_at(walls@, x as int, y as int),
{
    let mut i: usize = 0;
    while i < walls.len()
        invariant
            0 <= i <= walls.len(),
            forall|j: int| 0 <= j < i ==> !((#[trigger] walls@[j]).x == x && walls@[j].y == y),
        decreases walls.len() - i,
    {
        if walls[i].x == x && walls[i].y == y {
            assert(wall_at(walls@, x as int, y as int));
            return true;
        }
        i = i + 1;
    }
    false
}

/// Whether plate `p` occurs in `row`.
fn plate_in_row(row: &Vec<Plate>, p: Plate) -> (r: bool)
    ensures
        r == exists|k: int| 0 <= k < row@.len() && row@[k] == p,
{
    let mut k: usize = 0;
    while k < row.len()
        invariant
            0 <= k <= row@.len(),
            forall|k2: int| 0 <= k2 < k ==> row@[k2] != p,
        decreases row@.len() - k,
    {
        if row[k] == p {
            assert(row@[k as int] == p);
            return true;
        }
        k = k + 1;
    }
    false
}

/// The first entry of the association list keyed by plate `p`, if any.
fn find_plate(entries: &Vec<(Plate, Rect)>, p: Plate) -> (r: Option<usize>)
    ensures
        match r {
            Some(j) => j < entries@.len() && entries@[j as int].0 == p,
            None => forall|j: int| 0 <= j < entries@.len() ==> (#[trigger] entries@[j]).0 != p,
        },
{
    let mut j: usize = 0;
    while j < entries.len()
        invariant
            0 <= j <= entries@.len(),
            forall|j2: int| 0 <= j2 < j ==> (#[trigger] entries@[j2]).0 != p,
        decreases entries@.len() - j,
    {
        if entries[j].0 == p {
            return Some(j);
        }
        j = j + 1;
    }
    None
}

/// The boundary column of the row scan: everything left of it is already
/// accounted for, either by a closed plate or by the open run.
pub open spec fn scan_boundary(run: Option<i32>, x: int) -> int {
    match run {
        Some(s) => s as int,
        None => x,
    }
}

/// Row pass of the merge: scan each row left to right (with a one-past-the-end
/// sentinel column) and collect each maximal run of wall cells as a plate.
#[verifier::loop_isolation(false)]
fn build_plate_rows(walls: &Vec<GridCoords>, width: i32, height: i32) -> (rows: Vec<Vec<Plate>>)
    requires
        0 <= width < i32::MAX,
        0 <= height < i32::MAX,
        walls_in_bounds(walls@, width as int, height as int),
    ensures
        rows@.len() == height as int,
        forall|yy: int|
            0 <= yy < height as int ==> row_ok(
                (#[trigger] rows@[yy])@,
                walls@,
                yy,
                width as int,
            ),
{
    let mut rows: Vec<Vec<Plate>> = Vec::new();
    let mut y: i32 = 0;
    while y < height
        invariant
            0 <= y <= height,
            rows@.len() == y as int,
            forall|yy: int|
                0 <= yy < y as int ==> row_ok((#[trigger] rows@[yy])@, walls@, yy, width as int),
        decreases height - y,
    {
        let mut row_plates: Vec<Plate> = Vec::new();
        let mut plate_start: Option<i32> = None;
        let mut x: i32 = 0;
        while x < width + 1
            invariant
                0 <= x <= width + 1,
                // closed plates are maximal runs inside the grid, left to right
                forall|k: int|
                    0 <= k < row_plates@.len() ==> 0 <= (#[trigger] row_plates@[k]).left
                        && row_plates@[k].right < width && run_at(
                        walls@,
                        y as int,
                        row_plates@[k].left as int,
                        row_plates@[k].right as int,
                    ),
                forall|k: int|
                    0 <= k < row_plates@.len() ==> (#[trigger] row_plates@[k]).right + 2
                        <= scan_boundary(plate_start, x as int),
                forall|k1: int, k2: int|
                    0 <= k1 < k2 < row_plates@.len() ==> (#[trigger] row_plates@[k1]).right < (
                    #[trigger] row_plates@[k2]).left,
                // every wall cell left of the boundary lies in a closed plate
                forall|xx: int|
                    0 <= xx < scan_boundary(plate_start, x as int) && wall_at(walls@, xx, y as int)
                        ==> exists|k: int|
                        0 <= k < row_plates@.len() && (#[trigger] row_plates@[k]).left <= xx
                            <= row_plates@[k].right,
                // the open run covers exactly walls from its start to the cursor
                match plate_start {
                    Some(s) => {
                        &&& 0 <= s < x
                        &&& x <= width
                        &&& forall|xx: int| s <= xx < x ==> wall_at(walls@, xx, y as int)
                        &&& !wall_at(walls@, s - 1, y as int)
                    },
                    None => x == 0 || !wall_at(walls@, x - 1, y as int),
                },
            decreases width + 1 - x,
        {
            let cell = contains_wall(walls, x, y);
            if cell && x == width {
                proof {
                    let i = choose|i: int|
                        0 <= i < walls@.len() && walls@[i].x == x && walls@[i].y == y;
                    assert(walls@[i].x < width);
                }
            }
            match (plate_start, cell) {
                (Some(s), false) => {
                    let ghost ps0 = row_plates@;
                    row_plates.push(Plate { left: s, right: x - 1 });
                    plate_start = None;
                    proof {
                        let ps = row_plates@;
                        assert forall|xx: int|
                            0 <= xx < x + 1 && wall_at(walls@, xx, y as int) implies exists|k: int|
                            0 <= k < ps.len() && (#[trigger] ps[k]).left <= xx <= ps[k].right by {
                            if xx < s {
                                let k = choose|k: int|
                                    0 <= k < ps0.len() && (#[trigger] ps0[k]).left <= xx
                                        <= ps0[k].right;
                                assert(ps[k].left <= xx <= ps[k].right);
                            } else if xx <= x - 1 {
                                assert(ps[ps.len() - 1].left <= xx <= ps[ps.len() - 1].right);
                            } else {
                                assert(xx == x);
                                assert(false);
                            }
                        }
                    }
                }
                (None, true) => {
                    plate_start = Some(x);
                }
                _ => {}
            }
            x = x + 1;
        }
        assert(row_ok(row_plates@, walls@, y as int, width as int));
        rows.push(row_plates);
        y = y + 1;
    }
    rows
}

/// Column merge pass: walk the plate rows top to bottom (with one trailing
/// empty sentinel row), extending the rectangle of any plate that reappears
/// with identical bounds in the next row and emitting every rectangle whose
/// plate does not reappear.
#[verifier::loop_isolation(false)]
fn merge_plate_rows(
    rows_in: Vec<Vec<Plate>>,
    walls: Ghost<Seq<GridCoords>>,
    width: i32,
    height: i32,
) -> (rects: Vec<Rect>)
    requires
        0 <= width < i32::MAX,
        0 <= height < i32::MAX,
        walls_in_bounds(walls@, width as int, height as int),
        rows_in@.len() == height as int,
        forall|yy: int|
            0 <= yy < height as int ==> row_ok(
                (#[trigger] rows_in@[yy])@,
                walls@,
                yy,
                width as int,
            ),
    ensures
        forall|i: int| 0 <= i < rects@.len() ==> rect_maximal(walls@, #[trigger] rects@[i]),
        forall|x: int, yy: int| wall_at(walls@, x, yy) ==> covered(rects@, x, yy),
        forall|i: int, j: int| 0 <= i < j < rects@.len() ==> !same_key(rects@[i], rects@[j]),
{
    let mut rows = rows_in;
    rows.push(Vec::new());
    proof {
        assert forall|x: int| 0 <= x < width as int && wall_at(walls@, x, height as int)
            implies exists|k: int|
            0 <= k < rows@[height as int]@.len() && (#[trigger] rows@[height as int]@[k]).left <= x
                <= rows@[height as int]@[k].right by {
            let i = choose|i: int|
                0 <= i < walls@.len() && walls@[i].x == x && walls@[i].y == height as int;
            assert(walls@[i].y < height as int);
        }
        assert(row_ok(rows@[height as int]@, walls@, height as int, width as int));
    }
    let mut wall_rects: Vec<Rect> = Vec::new();
    let mut previous: Vec<(Plate, Rect)> = Vec::new();
    let mut yi: usize = 0;
    while yi < rows.len()
        invariant
            0 <= yi as int <= height as int + 1,
            rows@.len() == height as int + 1,
            forall|yy: int|
                0 <= yy <= height as int ==> row_ok(
                    (#[trigger] rows@[yy])@,
                    walls@,
                    yy,
                    width as int,
                ),
            yi as int == 0 ==> previous@.len() == 0,
            yi as int >= 1 ==> previous@.len() == rows@[yi as int - 1]@.len(),
            yi as int >= 1 ==> forall|j: int|
                0 <= j < previous@.len() ==> {
                    let e = #[trigger] previous@[j];
                    &&& e.0 == rows@[yi as int - 1]@[j]
                    &&& e.1.left == e.0.left
                    &&& e.1.right == e.0.right
                    &&& e.1.top == yi as int - 1
                    &&& rect_open_ok(walls@, e.1)
                },
            forall|i: int|
                0 <= i < wall_rects@.len() ==> rect_maximal(walls@, #[trigger] wall_rects@[i]),
            forall|i: int|
                0 <= i < wall_rects@.len() ==> (#[trigger] wall_rects@[i]).top + 2 <= yi as int,
            forall|x: int, yy: int|
                0 <= yy < yi as int && wall_at(walls@, x, yy) ==> covered(wall_rects@, x, yy)
                    || exists|j: int|
                    0 <= j < previous@.len() && covers((#[trigger] previous@[j]).1, x, yy),
            forall|i: int, j: int|
                0 <= i < j < wall_rects@.len() ==> !same_key(wall_rects@[i], wall_rects@[j]),
            forall|i: int, j: int|
                0 <= i < wall_rects@.len() && 0 <= j < previous@.len() ==> !same_key(
                    wall_rects@[i],
                    previous@[j].1,
                ),
            forall|j1: int, j2: int|
                0 <= j1 < j2 < previous@.len() ==> !same_key(previous@[j1].1, previous@[j2].1),
        decreases rows@.len() - yi,
    {
        let ghost yv = yi as int;
        let row = &rows[yi];
        let mut current: Vec<(Plate, Rect)> = Vec::new();
        let mut k: usize = 0;
        while k < row.len()
            invariant
                0 <= k <= row@.len(),
                current@.len() == k as int,
                forall|k2: int|
                    0 <= k2 < k as int ==> {
                        let c = #[trigger] current@[k2];
                        &&& c.0 == row@[k2]
                        &&& c.1.left == c.0.left
                        &&& c.1.right == c.0.right
                        &&& c.1.top == yv
                        &&& rect_open_ok(walls@, c.1)
                    },
                forall|k2: int, j: int|
                    0 <= k2 < k as int && 0 <= j < previous@.len() && (#[trigger] previous@[j]).0
                        == (#[trigger] current@[k2]).0 ==> current@[k2].1.bottom
                        == previous@[j].1.bottom,
                forall|k2: int|
                    0 <= k2 < k as int && (forall|j: int|
                        0 <= j < previous@.len() ==> (#[trigger] previous@[j]).0 != (
                        #[trigger] current@[k2]).0) ==> current@[k2].1.bottom == yv,
            decreases row@.len() - k,
        {
            let plate = row[k];
            proof {
                assert(row@[k as int] == plate);
                assert(run_at(walls@, yv, plate.left as int, plate.right as int));
            }
            match find_plate(&previous, plate) {
                Some(j) => {
                    let prev_rect = previous[j].1;
                    proof {
                        assert(previous@[j as int].1 == prev_rect);
                        assert(prev_rect.top == yv - 1);
                        assert(rect_open_ok(walls@, prev_rect));
                    }
                    let extended = Rect {
                        left: prev_rect.left,
                        right: prev_rect.right,
                        top: prev_rect.top + 1,
                        bottom: prev_rect.bottom,
                    };
                    proof {
                        assert(extended.left == plate.left && extended.right == plate.right);
                        assert forall|yy: int|
                            extended.bottom <= yy <= extended.top implies run_at(
                            walls@,
                            yy,
                            extended.left as int,
                            extended.right as int,
                        ) by {
                            if yy <= yv - 1 {
                                assert(run_at(walls@, yy, prev_rect.left as int, prev_rect.right as int));
                            } else {
                                assert(yy == yv);
                            }
                        }
                        assert(rect_open_ok(walls@, extended));
                    }
                    current.push((plate, extended));
                }
                None => {
                    let fresh = Rect {
                        left: plate.left,
                        right: plate.right,
                        top: yi as i32,
                        bottom: yi as i32,
                    };
                    proof {
                        if yv >= 1 {
                            if run_at(walls@, yv - 1, fresh.left as int, fresh.right as int) {
                                lemma_row_run_present(
                                    rows@[yv - 1]@,
                                    walls@,
                                    yv - 1,
                                    width as int,
                                    height as int,
                                    fresh.left as int,
                                    fresh.right as int,
                                );
                                let kp = choose|kp: int|
                                    0 <= kp < rows@[yv - 1]@.len() && (#[trigger] rows@[yv
                                        - 1]@[kp]).left == fresh.left as int && rows@[yv
                                        - 1]@[kp].right == fresh.right as int;
                                assert(previous@[kp].0 == rows@[yv - 1]@[kp]);
                                assert(previous@[kp].0 == plate);
                                assert(false);
                            }
                        }
                        assert(rect_open_ok(walls@, fresh));
                    }
                    current.push((plate, fresh));
                }
            }
            k = k + 1;
        }
        // emit every rectangle whose plate does not continue into this row
        let ghost wr0 = wall_rects@;
        let mut j: usize = 0;
        while j < previous.len()
            invariant
                0 <= j <= previous@.len(),
                wall_rects@.len() >= wr0.len(),
                forall|i: int| 0 <= i < wr0.len() ==> wall_rects@[i] == wr0[i],
                forall|i: int|
                    wr0.len() <= i < wall_rects@.len() ==> exists|j2: int|
                        0 <= j2 < j as int && #[trigger] wall_rects@[i] == (
                        #[trigger] previous@[j2]).1,
                forall|i: int|
                    0 <= i < wall_rects@.len() ==> rect_maximal(walls@, #[trigger] wall_rects@[i]),
                forall|i: int|
                    0 <= i < wall_rects@.len() ==> (#[trigger] wall_rects@[i]).top + 1 <= yv,
                forall|x: int, yy: int|
                    0 <= yy < yv && wall_at(walls@, x, yy) ==> covered(wall_rects@, x, yy) || (
                    exists|j2: int|
                        j as int <= j2 < previous@.len() && covers(
                            (#[trigger] previous@[j2]).1,
                            x,
                            yy,
                        )) || exists|k2: int|
                        0 <= k2 < current@.len() && covers((#[trigger] current@[k2]).1, x, yy),
                forall|i: int, i2: int|
                    0 <= i < i2 < wall_rects@.len() ==> !same_key(wall_rects@[i], wall_rects@[i2]),
                forall|i: int, j2: int|
                    0 <= i < wall_rects@.len() && j as int <= j2 < previous@.len() ==> !same_key(
                        wall_rects@[i],
                        previous@[j2].1,
                    ),
                forall|i: int, k2: int|
                    0 <= i < wall_rects@.len() && 0 <= k2 < current@.len() ==> !same_key(
                        wall_rects@[i],
                        current@[k2].1,
                    ),
            decreases previous@.len() - j,
        {
            let p = previous[j].0;
            let ghost wr1 = wall_rects@;
            proof {
                assert(previous@[j as int].0 == p);
            }
            let matched = plate_in_row(row, p);
            if !matched {
                let emitted = previous[j].1;
                proof {
                    // the plate stops here, so the rectangle is finished
                    assert(emitted.left == p.left && emitted.right == p.right);
                    if run_at(walls@, yv, emitted.left as int, emitted.right as int) {
                        lemma_row_run_present(
                            row@,
                            walls@,
                            yv,
                            width as int,
                            height as int,
                            emitted.left as int,
                            emitted.right as int,
                        );
                        let kp = choose|kp: int|
                            0 <= kp < row@.len() && (#[trigger] row@[kp]).left == emitted.left as int
                                && row@[kp].right == emitted.right as int;
                        assert(row@[kp] == p);
                        assert(false);
                    }
                    assert(rect_maximal(walls@, emitted));
                }
                wall_rects.push(emitted);
                proof {
                    let wr2 = wall_rects@;
                    let jv = j as int;
                    // distinct keys against everything already present
                    assert forall|i: int| 0 <= i < wr1.len() implies !same_key(wr2[i], emitted) by {
                        if i < wr0.len() {
                            // older rectangles end at least two rows lower
                            if same_key(wr2[i], emitted) {
                                let o = wr2[i];
                                assert(o.top + 2 <= yv);
                                assert(run_at(walls@, o.top + 1, o.left as int, o.right as int));
                                assert(false);
                            }
                        } else {
                            let j2 = choose|j2: int|
                                0 <= j2 < jv && wr1[i] == (#[trigger] previous@[j2]).1;
                            assert(!same_key(previous@[j2].1, previous@[jv].1));
                        }
                    }
                    assert forall|k2: int| 0 <= k2 < current@.len() implies !same_key(
                        emitted,
                        current@[k2].1,
                    ) by {
                        if same_key(emitted, current@[k2].1) {
                            assert(current@[k2].0 == row@[k2]);
                            assert(current@[k2].1.left == current@[k2].0.left);
                            assert(row@[k2] == p);
                            assert(false);
                        }
                    }
                }
            }
            proof {
                // pass the coverage of this entry on: to the emitted rectangle,
                // or to the extended one in `current`
                let jv = j as int;
                assert forall|x: int, yy: int|
                    0 <= yy < yv && wall_at(walls@, x, yy) implies covered(wall_rects@, x, yy) || (
                exists|j2: int|
                    jv + 1 <= j2 < previous@.len() && covers((#[trigger] previous@[j2]).1, x, yy))
                    || (exists|k2: int|
                    0 <= k2 < current@.len() && covers((#[trigger] current@[k2]).1, x, yy)) by {
                    if covered(wr1, x, yy) {
                        let i = choose|i: int| 0 <= i < wr1.len() && covers(#[trigger] wr1[i], x, yy);
                        assert(wall_rects@[i] == wr1[i]);
                        assert(covered(wall_rects@, x, yy));
                    } else if exists|j2: int|
                        jv <= j2 < previous@.len() && covers((#[trigger] previous@[j2]).1, x, yy) {
                        let j2 = choose|j2: int|
                            jv <= j2 < previous@.len() && covers((#[trigger] previous@[j2]).1, x, yy);
                        if j2 == jv {
                            if matched {
                                let kx = choose|kx: int| 0 <= kx < row@.len() && row@[kx] == p;
                                assert(current@[kx].0 == row@[kx]);
                                assert(current@[kx].1.bottom == previous@[jv].1.bottom);
                                assert(covers(current@[kx].1, x, yy));
                            } else {
                                let last = wall_rects@.len() - 1;
                                assert(wall_rects@[last] == previous@[jv].1);
                                assert(covered(wall_rects@, x, yy));
                            }
                        }
                    }
                }
            }
            j = j + 1;
        }
        proof {
            // every wall cell of the cursor row is now covered by `current`
            assert forall|x: int|
                wall_at(walls@, x, yv) implies exists|k2: int|
                0 <= k2 < current@.len() && covers((#[trigger] current@[k2]).1, x, yv) by {
                let i = choose|i: int|
                    0 <= i < walls@.len() && walls@[i].x == x && walls@[i].y == yv;
                assert(0 <= x < width as int);
                let kp = choose|kp: int|
                    0 <= kp < row@.len() && (#[trigger] row@[kp]).left <= x <= row@[kp].right;
                assert(current@[kp].0 == row@[kp]);
                assert(covers(current@[kp].1, x, yv));
            }
        }
        previous = current;
        yi = yi + 1;
    }
    wall_rects
}

/// Merge the wall cells of a `width` x `height` grid into collision
/// rectangles: the rectangles cover exactly the wall cells, no two of them
/// overlap, and each one is maximal for the greedy row merge (every row slice
/// is a maximal horizontal run, extendable neither a row down nor a row up).
#[verifier::loop_isolation(false)]
pub fn spawn_wall_collision(walls: &Vec<GridCoords>, width: i32, height: i32) -> (rects: Vec<Rect>)
    requires
        0 <= width < i32::MAX,
        0 <= height < i32::MAX,
        walls_in_bounds(walls@, width as int, height as int),
    ensures
        forall|x: int, y: int| wall_at(walls@, x, y) <==> covered(rects@, x, y),
        forall|i: int, j: int, x: int, y: int|
            0 <= i < rects@.len() && 0 <= j < rects@.len() && #[trigger] covers(rects@[i], x, y)
                && #[trigger] covers(rects@[j], x, y) ==> i == j,
        forall|i: int| 0 <= i < rects@.len() ==> rect_maximal(walls@, #[trigger] rects@[i]),
        forall|i: int|
            0 <= i < rects@.len() ==> 0 <= (#[trigger] rects@[i]).left && rects@[i].left
                <= rects@[i].right && rects@[i].right < width && 0 <= rects@[i].bottom
                && rects@[i].bottom <= rects@[i].top && rects@[i].top < height,
        merged_ok(rects@, walls@, width as int, height as int),
{
    let rows = build_plate_rows(walls, width, height);
    let rects = merge_plate_rows(rows, Ghost(walls@), width, height);
    proof {
        // a covered cell is a wall cell: its row slice is a run of walls
        assert forall|x: int, y: int| covered(rects@, x, y) implies wall_at(walls@, x, y) by {
            let i = choose|i: int| 0 <= i < rects@.len() && covers(#[trigger] rects@[i], x, y);
            assert(run_at(walls@, y, rects@[i].left as int, rects@[i].right as int));
        }
        // bounds, read off the wall cells at the rectangle's corners
        assert forall|i: int|
            0 <= i < rects@.len() implies 0 <= (#[trigger] rects@[i]).left && rects@[i].left
            <= rects@[i].right && rects@[i].right < width && 0 <= rects@[i].bottom
            && rects@[i].bottom <= rects@[i].top && rects@[i].top < height by {
            let r = rects@[i];
            assert(run_at(walls@, r.bottom as int, r.left as int, r.right as int));
            assert(run_at(walls@, r.top as int, r.left as int, r.right as int));
            assert(wall_at(walls@, r.left as int, r.bottom as int));
            assert(wall_at(walls@, r.right as int, r.top as int));
            let i1 = choose|i1: int|
                0 <= i1 < walls@.len() && walls@[i1].x == r.left as int && walls@[i1].y
                    == r.bottom as int;
            let i2 = choose|i2: int|
                0 <= i2 < walls@.len() && walls@[i2].x == r.right as int && walls@[i2].y
                    == r.top as int;
            assert(0 <= walls@[i1].x < width && 0 <= walls@[i1].y < height);
            assert(0 <= walls@[i2].x < width && 0 <= walls@[i2].y < height);
        }
        // no two rectangles overlap: a shared cell would force equal spans
        // and equal bottoms, and span/bottom keys are distinct
        assert forall|i: int, j: int, x: int, y: int|
            0 <= i < rects@.len() && 0 <= j < rects@.len() && #[trigger] covers(rects@[i], x, y)
                && #[trigger] covers(rects@[j], x, y) implies i == j by {
            let a = rects@[i];
            let b = rects@[j];
            assert(run_at(walls@, y, a.left as int, a.right as int));
            assert(run_at(walls@, y, b.left as int, b.right as int));
            lemma_runs_overlap_equal(
                walls@,
                y,
                a.left as int,
                a.right as int,
                b.left as int,
                b.right as int,
                x,
            );
            if a.bottom < b.bottom {
                assert(run_at(walls@, b.bottom - 1, a.left as int, a.right as int));
                assert(false);
            }
            if b.bottom < a.bottom {
                assert(run_at(walls@, a.bottom - 1, b.left as int, b.right as int));
                assert(false);
            }
            if i < j {
                assert(!same_key(rects@[i], rects@[j]));
                assert(false);
            }
            if j < i {
                assert(!same_key(rects@[j], rects@[i]));
                assert(false);
            }
        }
    }
    rects
}

/// A maximal run reads the same over two grids that hold the same wall cells.
proof fn lemma_run_same(
    walls1: Seq<GridCoords>,
    walls2: Seq<GridCoords>,
    y: int,
    l: int,
    r: int,
)
    requires
        forall|x: int, yy: int| wall_at(walls1, x, yy) <==> wall_at(walls2, x, yy),
        run_at(walls1, y, l, r),
    ensures
        run_at(walls2, y, l, r),
{
    assert forall|x: int| l <= x <= r implies wall_at(walls2, x, y) by {
        assert(wall_at(walls1, x, y));
    }
}

/// A finished rectangle of one merge result appears verbatim in any other
/// sequence of finished rectangles that covers the same wall cells.
proof fn lemma_rect_found(
    walls_a: Seq<GridCoords>,
    walls_b: Seq<GridCoords>,
    a: Rect,
    rb: Seq<Rect>,
)
    requires
        forall|x: int, yy: int| wall_at(walls_a, x, yy) <==> wall_at(walls_b, x, yy),
        rect_maximal(walls_a, a),
        forall|i: int| 0 <= i < rb.len() ==> rect_maximal(walls_b, #[trigger] rb[i]),
        forall|x: int, yy: int| wall_at(walls_b, x, yy) ==> covered(rb, x, yy),
    ensures
        rect_in(rb, a),
{
    assert(run_at(walls_a, a.bottom as int, a.left as int, a.right as int));
    assert(wall_at(walls_a, a.left as int, a.bottom as int));
    assert(wall_at(walls_b, a.left as int, a.bottom as int));
    let j = choose|j: int|
        0 <= j < rb.len() && covers(#[trigger] rb[j], a.left as int, a.bottom as int);
    let b = rb[j];
    lemma_run_same(walls_a, walls_b, a.bottom as int, a.left as int, a.right as int);
    assert(run_at(walls_b, a.bottom as int, b.left as int, b.right as int));
    lemma_runs_overlap_equal(
        walls_b,
        a.bottom as int,
        a.left as int,
        a.right as int,
        b.left as int,
        b.right as int,
        a.left as int,
    );
    if b.bottom < a.bottom {
        assert(run_at(walls_b, a.bottom - 1, b.left as int, b.right as int));
        lemma_run_same(walls_b, walls_a, a.bottom - 1, a.left as int, a.right as int);
        assert(false);
    }
    if b.top < a.top {
        assert(run_at(walls_a, b.top + 1, a.left as int, a.right as int));
        lemma_run_same(walls_a, walls_b, b.top + 1, b.left as int, b.right as int);
        assert(false);
    }
    if a.top < b.top {
        assert(run_at(walls_b, a.top + 1, b.left as int, b.right as int));
        lemma_run_same(walls_b, walls_a, a.top + 1, a.left as int, a.right as int);
        assert(false);
    }
    assert(b == a);
    assert(rect_in(rb, a));
}

/// The merge is deterministic in the grid alone: over two grids with the same
/// wall cells, any two rectangle sequences that meet the merge contract
/// (finished rectangles covering exactly the wall cells) hold exactly the
/// same rectangles; only their order may differ.
pub proof fn lemma_merge_deterministic(
    walls1: Seq<GridCoords>,
    walls2: Seq<GridCoords>,
    r1: Seq<Rect>,
    r2: Seq<Rect>,
)
    requires
        forall|x: int, y: int| wall_at(walls1, x, y) <==> wall_at(walls2, x, y),
        forall|i: int| 0 <= i < r1.len() ==> rect_maximal(walls1, #[trigger] r1[i]),
        forall|x: int, y: int| wall_at(walls1, x, y) ==> covered(r1, x, y),
        forall|i: int| 0 <= i < r2.len() ==> rect_maximal(walls2, #[trigger] r2[i]),
        forall|x: int, y: int| wall_at(walls2, x, y) ==> covered(r2, x, y),
    ensures
        forall|i: int| 0 <= i < r1.len() ==> rect_in(r2, #[trigger] r1[i]),
        forall|j: int| 0 <= j < r2.len() ==> rect_in(r1, #[trigger] r2[j]),
{
    assert forall|i: int| 0 <= i < r1.len() implies rect_in(r2, #[trigger] r1[i]) by {
        lemma_rect_found(walls1, walls2, r1[i], r2);
    }
    assert forall|j: int| 0 <= j < r2.len() implies rect_in(r1, #[trigger] r2[j]) by {
        lemma_rect_found(walls2, walls1, r2[j], r1);
    }
}

/// The physics collider for one merged rectangle, in doubled world units so
/// that the half-cell centre offsets stay exact integers: the collider is the
/// box centred at (center_x2 / 2, center_y2 / 2) with half extents
/// (half_w2 / 2, half_h2 / 2).
#[derive(Debug, Clone, Copy, PartialEq, Eq, Structural)]
pub struct ColliderBox {
    pub center_x2: i64,
    pub center_y2: i64,
    pub half_w2: i64,
    pub half_h2: i64,
}

/// A product of a doubled cell coordinate and a cell size stays well inside
/// the 64-bit range.
proof fn lemma_collider_mul_bound(v: int, gs: int)
    by (nonlinear_arith)
    requires
        -0x2_0000_0000 <= v <= 0x2_0000_0000,
        0 <= gs <= 0x10000,
    ensures
        -0x2_0000_0000_0000 <= v * gs <= 0x2_0000_0000_0000,
{
}

/// Convert a merged rectangle to its collider: centred on the rectangle,
/// with half extents of half its cell size, all scaled by the layer's cell
/// size (and doubled, to stay integral).
pub fn wall_collider(rect: &Rect, grid_size: i32) -> (c: ColliderBox)
    requires
        0 <= grid_size <= 0x10000,
    ensures
        c.center_x2 == (rect.left + rect.right + 1) * grid_size,
        c.center_y2 == (rect.bottom + rect.top + 1) * grid_size,
        c.half_w2 == (rect.right - rect.left + 1) * grid_size,
        c.half_h2 == (rect.top - rect.bottom + 1) * grid_size,
{
    let gs = grid_size as i64;
    proof {
        lemma_collider_mul_bound(rect.left + rect.right + 1, gs as int);
        lemma_collider_mul_bound(rect.bottom + rect.top + 1, gs as int);
        lemma_collider_mul_bound(rect.right - rect.left + 1, gs as int);
        lemma_collider_mul_bound(rect.top - rect.bottom + 1, gs as int);
    }
    ColliderBox {
        center_x2: (rect.left as i64 + rect.right as i64 + 1) * gs,
        center_y2: (rect.bottom as i64 + rect.top as i64 + 1) * gs,
        half_w2: (rect.right as i64 - rect.left as i64 + 1) * gs,
        half_h2: (rect.top as i64 - rect.bottom as i64 + 1) * gs,
    }
}

impl WallsPlugin {
    /// The wall pass for a freshly imported level: find the layer named
    /// "Collision", merge the wall cells reported for it, and hand back the
    /// merged rectangles with the layer's cell size. A level without that
    /// layer is a fatal authoring error.
    pub fn step(layers: &Vec<LayerInstance>, walls: &Vec<GridCoords>) -> (r: Result<
        (i32, Vec<Rect>),
        AuthoringError,
    >)
        requires
            forall|i: int|
                (0 <= i < layers@.len() && (#[trigger] layers@[i]).identifier@ == "Collision"@ && (
                forall|j: int| 0 <= j < i ==> (#[trigger] layers@[j]).identifier@ != "Collision"@))
                    ==> (0 <= layers@[i].c_wid < i32::MAX && 0 <= layers@[i].c_hei < i32::MAX
                    && walls_in_bounds(walls@, layers@[i].c_wid as int, layers@[i].c_hei as int)),
        ensures
            match r {
                Ok(res) => exists|i: int|
                    {
                        &&& 0 <= i < layers@.len()
                        &&& (#[trigger] layers@[i]).identifier@ == "Collision"@
                        &&& forall|j: int|
                            0 <= j < i ==> (#[trigger] layers@[j]).identifier@ != "Collision"@
                        &&& res.0 == layers@[i].grid_size
                        &&& merged_ok(
                            res.1@,
                            walls@,
                            layers@[i].c_wid as int,
                            layers@[i].c_hei as int,
                        )
                    },
                Err(e) => e == AuthoringError::MissingLayer && forall|i: int|
                    0 <= i < layers@.len() ==> (#[trigger] layers@[i]).identifier@
                        != "Collision"@,
            },
    {
        let name = "Collision".to_string();
        match find_layer(layers, &name) {
            None => Err(AuthoringError::MissingLayer),
            Some(i) => {
                let width = layers[i].c_wid;
                let height = layers[i].c_hei;
                let rects = spawn_wall_collision(walls, width, height);
                Ok((layers[i].grid_size, rects))
            },
        }
    }
}

} // verus!
