//! Rectangles on the screen, and the layouts that share an area among windows.
use vstd::prelude::*;

verus! {

/// How the windows of a workspace share the area of the output.
#[derive(Clone, Copy, Debug, PartialEq, Eq, Structural)]
pub enum Layout {
    /// One master window on the left, the others stacked on the right.
    Tile,
    /// Rows of equally wide cells.
    Grid,
    /// Each window takes the whole area; only the focused one is shown.
    Monocle,
    /// Each window takes the whole area until it is moved.
    Float,
}

impl Default for Layout {
    fn default() -> (layout: Self)
        ensures
            layout == Layout::Tile,
    {
        Layout::Tile
    }
}

/// A rectangle: its upper left corner, its width and its height.
#[derive(Clone, Copy, Debug, PartialEq, Eq, Structural)]
pub struct Rect {
    pub x: i32,
    pub y: i32,
    pub w: i32,
    pub h: i32,
}

impl Default for Rect {
    fn default() -> (rect: Self)
        ensures
            rect == Rect::zero(),
    {
        Rect { x: 0, y: 0, w: 0, h: 0 }
    }
}

impl Rect {
    /// The rectangle of no extent at the origin.
    pub open spec fn zero() -> Rect {
        Rect { x: 0, y: 0, w: 0, h: 0 }
    }

    /// Whether the point lies in the rectangle; the right and lower edges do not belong to it.
    pub open spec fn has_point(self, x: int, y: int) -> bool {
        self.x <= x < self.x + self.w && self.y <= y < self.y + self.h
    }

    /// Whether `self` lies in `outer`.
    pub open spec fn inside(self, outer: Rect) -> bool {
        &&& outer.x <= self.x
        &&& outer.y <= self.y
        &&& self.x + self.w <= outer.x + outer.w
        &&& self.y + self.h <= outer.y + outer.h
    }

    /// Whether no point lies in both rectangles.
    pub open spec fn disjoint(self, other: Rect) -> bool {
        forall|x: int, y: int| !(#[trigger] self.has_point(x, y) && other.has_point(x, y))
    }
}

/// Whether `v` is a value of `i32`.
pub open spec fn fits(v: int) -> bool {
    i32::MIN <= v <= i32::MAX
}

/// The quotient of `a` by the positive `b`, rounded towards zero.
pub open spec fn quot(a: int, b: int) -> int {
    if a >= 0 {
        a / b
    } else {
        -((-a) / b)
    }
}

/// What division by the positive `b`, rounded towards zero, leaves of `a`.
pub open spec fn rem(a: int, b: int) -> int {
    a - b * quot(a, b)
}

/// The greater of two numbers.
pub open spec fn greater(a: int, b: int) -> int {
    if a >= b {
        a
    } else {
        b
    }
}

/// How many of the first `i` stacked windows are one pixel taller than the others, of whom
/// `extra` are.
pub open spec fn taller_before(i: int, extra: int) -> int {
    if extra <= 0 {
        0
    } else if i < extra {
        i
    } else {
        extra
    }
}

/// The rectangle of stacked window `i` among `count`.
pub open spec fn stacked(area: Rect, count: int, master_w: i32, i: int) -> Rect {
    let base = quot(area.h as int, count);
    let extra = rem(area.h as int, count);
    Rect {
        x: (area.x + master_w) as i32,
        y: (area.y + i * base + taller_before(i, extra)) as i32,
        w: (area.w - master_w) as i32,
        h: (base + if i < extra { 1int } else { 0 }) as i32,
    }
}

/// One master of width `master_w` on the left, and the other windows stacked on its right. The
/// heights of the stack differ by at most one pixel, the taller ones above.
pub open spec fn tile_rects(area: Rect, n: nat, master_w: i32) -> Seq<Rect> {
    if n == 1 {
        seq![area]
    } else {
        Seq::new(
            n,
            |i: int|
                if i == 0 {
                    Rect { w: master_w, ..area }
                } else {
                    stacked(area, n - 1, master_w, i - 1)
                },
        )
    }
}

/// Whether each number on the way to `tile_rects` is a value of `i32`.
pub open spec fn tile_fits(area: Rect, n: nat, master_w: i32) -> bool {
    n >= 2 ==> {
        &&& fits(n - 1)
        &&& fits(area.w - master_w)
        &&& fits(area.x + master_w)
        &&& fits(
            area.y + (n - 1) * quot(area.h as int, n - 1) + taller_before(
                n - 1,
                rem(area.h as int, n - 1),
            ),
        )
    }
}

/// The least number whose square is at least `n`.
pub open spec fn root_up(n: nat) -> nat
    decreases n,
{
    if n == 0 {
        0
    } else {
        let less = root_up((n - 1) as nat);
        if less * less >= n {
            less
        } else {
            less + 1
        }
    }
}

/// How many rows of `cols` cells `n` cells fill, the last one perhaps in part.
pub open spec fn rows_of(n: nat, cols: nat) -> nat {
    ((n + cols - 1) / cols as int) as nat
}

/// How many of `n` cells, `cols` in a row, stand in row `row`.
pub open spec fn cells_in_row(n: nat, cols: nat, row: int) -> int {
    if row == rows_of(n, cols) - 1 {
        n - row * cols
    } else {
        cols as int
    }
}

/// Cell `i` of `n`, `cols` in a row. The cells of a row are equally wide, and a short last row
/// has wider cells. All rows are equally high, but for the last, which takes what is left.
pub open spec fn grid_cell(area: Rect, n: nat, cols: nat, i: int) -> Rect {
    let row = i / cols as int;
    let col = i % cols as int;
    let cell_w = quot(area.w as int, cells_in_row(n, cols, row));
    let row_h = quot(area.h as int, rows_of(n, cols) as int);
    Rect {
        x: (area.x + col * cell_w) as i32,
        y: (area.y + row * row_h) as i32,
        w: cell_w as i32,
        h: (if row == rows_of(n, cols) - 1 {
            area.h - row * row_h
        } else {
            row_h
        }) as i32,
    }
}

/// `n` cells in rows of as many as there are rows, or one more.
pub open spec fn grid_rects(area: Rect, n: nat) -> Seq<Rect> {
    if n == 1 {
        seq![area]
    } else {
        Seq::new(n, |i: int| grid_cell(area, n, root_up(n), i))
    }
}

/// Whether the corner of cell `i` has coordinates that are values of `i32`.
pub open spec fn grid_cell_fits(area: Rect, n: nat, i: int) -> bool {
    let cols = root_up(n);
    let row = i / cols as int;
    let col = i % cols as int;
    &&& fits(area.x + col * quot(area.w as int, cells_in_row(n, cols, row)))
    &&& fits(area.y + row * quot(area.h as int, rows_of(n, cols) as int))
}

/// The greatest number of cells for which a square root in double precision, rounded up, is the
/// number of columns.
pub const MAX_CELLS: u64 = 0x10_0000_0000_0000;

/// Whether each number on the way to `grid_rects` is a value of `i32`.
pub open spec fn grid_fits(area: Rect, n: nat) -> bool {
    n >= 2 ==> {
        &&& n <= MAX_CELLS
        &&& forall|i: int| 0 <= i < n ==> #[trigger] grid_cell_fits(area, n, i)
    }
}

/// The rectangles of `n` windows.
pub open spec fn arranged(layout: Layout, area: Rect, n: nat, master_w: i32) -> Seq<Rect> {
    if n == 0 {
        Seq::empty()
    } else {
        match layout {
            Layout::Tile => tile_rects(area, n, master_w),
            Layout::Grid => grid_rects(area, n),
            Layout::Monocle | Layout::Float => Seq::new(n, |i: int| area),
        }
    }
}

/// Whether each number on the way to `arranged` is a value of `i32`.
pub open spec fn arrange_fits(layout: Layout, area: Rect, n: nat, master_w: i32) -> bool {
    match layout {
        Layout::Tile => tile_fits(area, n, master_w),
        Layout::Grid => grid_fits(area, n),
        Layout::Monocle | Layout::Float => true,
    }
}

/// `r` drawn in by `gap` on each side, but at least one pixel wide and high.
pub open spec fn gapped(r: Rect, gap: i32) -> Rect {
    Rect {
        x: (r.x + gap) as i32,
        y: (r.y + gap) as i32,
        w: greater(r.w - 2 * gap, 1) as i32,
        h: greater(r.h - 2 * gap, 1) as i32,
    }
}

/// Whether each number on the way to `gapped` is a value of `i32`.
pub open spec fn gap_fits(r: Rect, gap: i32) -> bool {
    &&& fits(r.x + gap)
    &&& fits(r.y + gap)
    &&& fits(2 * gap)
    &&& fits(r.w - 2 * gap)
    &&& fits(r.h - 2 * gap)
}

/// `rects`, each drawn in by `gap`; a gap of zero leaves them as they are.
pub open spec fn with_gap(rects: Seq<Rect>, gap: i32) -> Seq<Rect> {
    if gap == 0 {
        rects
    } else {
        rects.map_values(|r: Rect| gapped(r, gap))
    }
}

/// Whether each number on the way to `with_gap` is a value of `i32`.
pub open spec fn gaps_fit(rects: Seq<Rect>, gap: i32) -> bool {
    gap == 0 || forall|i: int| 0 <= i < rects.len() ==> gap_fits(#[trigger] rects[i], gap)
}

/// A rectangle of the given size in the middle of `area`.
pub open spec fn centered(area: Rect, w: i32, h: i32) -> Rect {
    Rect {
        x: (area.x + quot(area.w - w, 2)) as i32,
        y: (area.y + quot(area.h - h, 2)) as i32,
        w,
        h,
    }
}

/// Whether each number on the way to `centered` is a value of `i32`.
pub open spec fn center_fits(area: Rect, w: i32, h: i32) -> bool {
    &&& fits(area.w - w)
    &&& fits(area.h - h)
    &&& fits(area.x + quot(area.w - w, 2))
    &&& fits(area.y + quot(area.h - h, 2))
}

/// Rounded towards zero, the quotient of a value of `i32` lies between it and zero, and so do
/// the multiples of the quotient by numbers up to the divisor.
pub proof fn lemma_quot(a: int, b: int, k: int)
    requires
        0 < b,
        0 <= k <= b,
    ensures
        a >= 0 ==> 0 <= quot(a, b) <= a && 0 <= k * quot(a, b) <= a,
        a <= 0 ==> a <= quot(a, b) <= 0 && a <= k * quot(a, b) <= 0,
        a >= 0 ==> 0 <= rem(a, b) < b,
        a <= 0 ==> -b < rem(a, b) <= 0,
{
    let m = if a >= 0 {
        a
    } else {
        -a
    };
    let q = m / b;
    assert(0 <= q && b * q <= m && m < b * q + b && q <= m && 0 <= k * q && k * q <= b * q)
        by (nonlinear_arith)
        requires
            0 < b,
            0 <= m,
            0 <= k <= b,
            q == m / b,
    ;
    assert(k * (-q) == -(k * q) && b * (-q) == -(b * q)) by (nonlinear_arith);
}

/// Shares `area` among `n` windows. In the tiled layout the master is `master_w` wide.
pub fn arrange(layout: Layout, area: Rect, n: usize, master_w: i32) -> (rects: Vec<Rect>)
    requires
        arrange_fits(layout, area, n as nat, master_w),
    ensures
        rects@ == arranged(layout, area, n as nat, master_w),
{
    if n == 0 {
        return Vec::new();
    }
    match layout {
        Layout::Tile => tile(area, n, master_w),
        Layout::Grid => grid(area, n),
        Layout::Monocle | Layout::Float => {
            let mut rects: Vec<Rect> = Vec::new();
            for i in 0..n
                invariant
                    rects@ == Seq::new(i as nat, |k: int| area),
            {
                rects.push(area);
            }
            rects
        },
    }
}

/// One master of width `master_w`, and the other `n - 1` windows stacked on its right.
pub fn tile(area: Rect, n: usize, master_w: i32) -> (rects: Vec<Rect>)
    requires
        n >= 1,
        tile_fits(area, n as nat, master_w),
    ensures
        rects@ == tile_rects(area, n as nat, master_w),
{
    let mut rects: Vec<Rect> = Vec::new();
    if n == 1 {
        rects.push(area);
        assert(rects@ =~= tile_rects(area, 1, master_w));
        return rects;
    }
    let stack_w: i32 = area.w - master_w;
    let stack_n: i32 = (n - 1) as i32;
    let base_h: i32 = area.h / stack_n;
    let extra: i32 = area.h % stack_n;
    let ghost count: int = n - 1;
    proof {
        lemma_quot(area.h as int, count, count);
        lemma_truncated(area.h, stack_n);
        assert(0 * base_h == 0) by (nonlinear_arith);
    }
    rects.push(Rect { x: area.x, y: area.y, w: master_w, h: area.h });
    let mut y: i32 = area.y;
    let x: i32 = area.x + master_w;
    for i in 0..n - 1
        invariant
            n >= 2,
            count == n - 1,
            stack_n == count,
            fits(count),
            base_h == quot(area.h as int, count),
            extra == rem(area.h as int, count),
            stack_w == area.w - master_w,
            x == area.x + master_w,
            tile_fits(area, n as nat, master_w),
            y == area.y + i * base_h + taller_before(i as int, extra as int),
            rects@ == tile_rects(area, n as nat, master_w).take(i + 1),
    {
        proof {
            lemma_quot(area.h as int, count, count);
            lemma_stack_step(area, count, i as int, base_h as int, extra as int);
        }
        let h: i32 = base_h + if (i as i32) < extra {
            1
        } else {
            0
        };
        rects.push(Rect { x, y, w: stack_w, h });
        y += h;
        assert(rects@ =~= tile_rects(area, n as nat, master_w).take(i + 2));
    }
    assert(rects@ =~= tile_rects(area, n as nat, master_w));
    rects
}

/// The division of the machine rounds towards zero.
proof fn lemma_truncated(a: i32, b: i32)
    requires
        b > 0,
    ensures
        a >= 0 ==> a % b == rem(a as int, b as int),
        a < 0 ==> -((-a) % b as int) == rem(a as int, b as int),
{
    let m: int = if a >= 0 {
        a as int
    } else {
        -a
    };
    let d = b as int;
    assert(m == d * (m / d) + m % d) by (nonlinear_arith)
        requires
            d > 0,
    ;
    assert(d * (-(m / d)) == -(d * (m / d))) by (nonlinear_arith);
}

/// The lower edges of the stacked windows lie between the first upper edge and the last lower
/// edge.
proof fn lemma_stack_step(area: Rect, count: int, i: int, base: int, extra: int)
    requires
        0 <= i < count,
        count <= i32::MAX,
        base == quot(area.h as int, count),
        extra == rem(area.h as int, count),
        fits(area.y + count * base + taller_before(count, extra)),
    ensures
        fits(base + if i < extra { 1int } else { 0 }),
        (i + 1) * base == i * base + base,
        fits(area.y + (i + 1) * base + taller_before(i + 1, extra)),
        fits(area.y + i * base + taller_before(i, extra)),
{
    lemma_quot(area.h as int, count, i);
    lemma_quot(area.h as int, count, i + 1);
    lemma_quot(area.h as int, count, count);
    assert((i + 1) * base == i * base + base) by (nonlinear_arith);
    assert(base >= 0 ==> i * base <= (i + 1) * base <= count * base) by (nonlinear_arith)
        requires
            0 <= i < count,
    ;
    assert(base <= 0 ==> i * base >= (i + 1) * base >= count * base) by (nonlinear_arith)
        requires
            0 <= i < count,
    ;
    if i < extra {
        assert(base + 1 <= area.h) by (nonlinear_arith)
            requires
                0 < extra,
                extra < count,
                area.h == count * base + extra,
                base >= 0,
        ;
    }
}

/// `root_up(n)` is the square root of `n`, rounded up.
pub proof fn law_root_up(n: nat)
    ensures
        root_up(n) * root_up(n) >= n,
        n > 0 ==> root_up(n) >= 1 && (root_up(n) - 1) * (root_up(n) - 1) < n,
    decreases n,
{
    if n > 0 {
        law_root_up((n - 1) as nat);
        let less = root_up((n - 1) as nat) as int;
        if less * less < n {
            assert((less + 1) * (less + 1) >= n) by (nonlinear_arith)
                requires
                    less >= 0,
                    less * less >= n - 1,
            ;
        } else if n == 1 {
            assert(less == 0);
        } else {
            assert((less - 1) * (less - 1) < n);
        }
    }
}

/// No other number is the square root of `n`, rounded up.
proof fn lemma_root_unique(n: nat, c: nat)
    requires
        n > 0,
        c >= 1,
        c * c >= n,
        (c - 1) * (c - 1) < n,
    ensures
        c == root_up(n),
{
    law_root_up(n);
    let r = root_up(n) as int;
    let c = c as int;
    if c < r {
        assert(c * c <= (r - 1) * (r - 1)) by (nonlinear_arith)
            requires
                1 <= c <= r - 1,
        ;
    }
    if r < c {
        assert(r * r <= (c - 1) * (c - 1)) by (nonlinear_arith)
            requires
                1 <= r <= c - 1,
        ;
    }
}

/// Where cell `i` stands: its row and column are in range, and so is the number of cells of its
/// row.
pub proof fn lemma_cell_place(n: nat, cols: nat, i: int)
    requires
        n >= 1,
        cols >= 1,
        cols * cols >= n,
        0 <= i < n,
    ensures
        1 <= rows_of(n, cols) <= cols,
        0 <= i / cols as int <= rows_of(n, cols) - 1,
        0 <= i % cols as int,
        (i % cols as int) < cells_in_row(n, cols, i / cols as int) <= cols,
        (i / cols as int) * cols <= i,
        i == (i / cols as int) * cols + i % cols as int,
        (i / cols as int) * cols + cells_in_row(n, cols, i / cols as int) <= n,
{
    let c = cols as int;
    let row = i / c;
    let col = i % c;
    let rows = (n + c - 1) / c;
    assert(i == row * c + col && 0 <= col < c && 0 <= row) by (nonlinear_arith)
        requires
            c >= 1,
            i >= 0,
            row == i / c,
            col == i % c,
    ;
    assert(rows * c <= n + c - 1 && n + c - 1 < rows * c + c) by (nonlinear_arith)
        requires
            c >= 1,
            rows == (n + c - 1) / c,
    ;
    assert(1 <= rows <= c) by (nonlinear_arith)
        requires
            rows * c <= n + c - 1,
            n + c - 1 < rows * c + c,
            c >= 1,
            n >= 1,
            c * c >= n,
    ;
    assert(row <= rows - 1) by (nonlinear_arith)
        requires
            row * c <= i,
            i < n,
            n <= rows * c,
            c >= 1,
    ;
    assert(row < rows - 1 ==> row * c + c <= n) by (nonlinear_arith)
        requires
            rows * c <= n + c - 1,
            c >= 1,
    ;
    assert((rows - 1) * c == rows * c - c) by (nonlinear_arith);
}

/// Rows of cells, as many in a row as there are rows, or one more.
pub fn grid(area: Rect, n: usize) -> (rects: Vec<Rect>)
    requires
        n >= 1,
        grid_fits(area, n as nat),
    ensures
        rects@ == grid_rects(area, n as nat),
{
    let mut rects: Vec<Rect> = Vec::new();
    if n == 1 {
        rects.push(area);
        assert(rects@ =~= grid_rects(area, 1));
        return rects;
    }
    let count: u64 = n as u64;
    let cols: u64 = columns(count);
    let rows: u64 = (count + cols - 1) / cols;
    let ghost nn = n as nat;
    proof {
        law_root_up(nn);
        lemma_cell_place(nn, cols as nat, 0);
        lemma_quot(area.h as int, rows as int, 0);
    }
    assert(rows == rows_of(nn, cols as nat));
    let row_h: i32 = area.h / rows as i32;
    assert(row_h == quot(area.h as int, rows as int));
    for i in 0..n
        invariant
            n >= 2,
            nn == n,
            count == n,
            count <= MAX_CELLS,
            1 <= cols <= 0x400_0000,
            cols == root_up(nn),
            cols * cols >= nn,
            rows == rows_of(nn, cols as nat),
            1 <= rows <= cols,
            row_h == quot(area.h as int, rows as int),
            grid_fits(area, nn),
            rects@ == grid_rects(area, nn).take(i as int),
    {
        let row: u64 = i as u64 / cols;
        let col: u64 = i as u64 % cols;
        proof {
            lemma_cell_place(nn, cols as nat, i as int);
            assert(grid_cell_fits(area, nn, i as int));
        }
        let is_last_row = row == rows - 1;
        assert(row * cols == (i as int / cols as int) * cols);
        let items: u64 = if is_last_row {
            count - row * cols
        } else {
            cols
        };
        assert(items == cells_in_row(nn, cols as nat, row as int));
        let cell_w: i32 = area.w / items as i32;
        proof {
            assert(cell_w == quot(area.w as int, items as int));
            lemma_quot(area.w as int, items as int, col as int);
            lemma_quot(area.h as int, rows as int, row as int);
        }
        let x: i32 = area.x + col as i32 * cell_w;
        let y: i32 = area.y + row as i32 * row_h;
        let h: i32 = if is_last_row {
            area.h - row as i32 * row_h
        } else {
            row_h
        };
        rects.push(Rect { x, y, w: cell_w, h });
        assert(rects@ =~= grid_rects(area, nn).take(i + 1));
    }
    assert(rects@ =~= grid_rects(area, nn));
    rects
}

/// The number of columns of a grid of `n` cells.
fn columns(n: u64) -> (cols: u64)
    requires
        2 <= n <= MAX_CELLS,
    ensures
        cols == root_up(n as nat),
        1 <= cols <= 0x400_0000,
{
    let mut c: u64 = 1;
    while c * c < n
        invariant
            2 <= n <= MAX_CELLS,
            1 <= c <= 0x400_0000,
            c * c <= 0x10_0000_0000_0000,
            (c - 1) * (c - 1) < n,
        decreases 0x400_0001 - c,
    {
        assert(c + 1 <= 0x400_0000) by (nonlinear_arith)
            requires
                c * c < n,
                n <= 0x10_0000_0000_0000,
                c >= 1,
        ;
        assert((c + 1) * (c + 1) <= 0x10_0000_0000_0000) by (nonlinear_arith)
            requires
                1 <= c + 1 <= 0x400_0000,
        ;
        c += 1;
    }
    proof {
        lemma_root_unique(n as nat, c as nat);
    }
    c
}

/// Draws each rectangle in by `gap` on each side.
pub fn apply_gap(rects: Vec<Rect>, gap: i32) -> (drawn_in: Vec<Rect>)
    requires
        gaps_fit(rects@, gap),
    ensures
        drawn_in@ == with_gap(rects@, gap),
{
    if gap == 0 {
        return rects;
    }
    let mut drawn_in: Vec<Rect> = Vec::new();
    for i in 0..rects.len()
        invariant
            gap != 0,
            gaps_fit(rects@, gap),
            drawn_in@ == with_gap(rects@, gap).take(i as int),
    {
        let r = rects[i];
        assert(gap_fits(rects@[i as int], gap));
        drawn_in.push(
            Rect {
                x: r.x + gap,
                y: r.y + gap,
                w: (r.w - 2 * gap).max(1),
                h: (r.h - 2 * gap).max(1),
            },
        );
        assert(drawn_in@ =~= with_gap(rects@, gap).take(i + 1));
    }
    assert(drawn_in@ =~= with_gap(rects@, gap));
    drawn_in
}

/// A rectangle of the given size in the middle of `area`.
pub fn center_rect(area: Rect, w: i32, h: i32) -> (rect: Rect)
    requires
        center_fits(area, w, h),
    ensures
        rect == centered(area, w, h),
{
    Rect { x: area.x + (area.w - w) / 2, y: area.y + (area.h - h) / 2, w, h }
}

/// Whether `v` is a value of `i32`.
pub(crate) fn in_range(v: i64) -> (yes: bool)
    ensures
        yes == fits(v as int),
{
    i32::MIN as i64 <= v && v <= i32::MAX as i64
}

/// Whether `arrange` can be called on these arguments.
pub fn can_arrange(layout: Layout, area: Rect, n: usize, master_w: i32) -> (yes: bool)
    ensures
        yes == arrange_fits(layout, area, n as nat, master_w),
{
    if n < 2 {
        return true;
    }
    match layout {
        Layout::Tile => can_tile(area, n, master_w),
        Layout::Grid => can_grid(area, n),
        Layout::Monocle | Layout::Float => true,
    }
}

/// Whether `tile` can be called on these arguments.
fn can_tile(area: Rect, n: usize, master_w: i32) -> (yes: bool)
    requires
        n >= 2,
    ensures
        yes == tile_fits(area, n as nat, master_w),
{
    if n as u64 - 1 > i32::MAX as u64 {
        return false;
    }
    let count: i64 = (n - 1) as i64;
    let base: i64 = area.h as i64 / count;
    let extra: i64 = area.h as i64 % count;
    proof {
        lemma_quot(area.h as int, count as int, count as int);
        lemma_truncated(area.h, count as i32);
    }
    assert(base == quot(area.h as int, count as int));
    assert(extra == rem(area.h as int, count as int));
    let taller: i64 = if extra > 0 {
        extra
    } else {
        0
    };
    in_range(area.w as i64 - master_w as i64) && in_range(area.x as i64 + master_w as i64)
        && in_range(area.y as i64 + count * base + taller)
}

/// Whether `grid` can be called on these arguments.
fn can_grid(area: Rect, n: usize) -> (yes: bool)
    requires
        n >= 2,
    ensures
        yes == grid_fits(area, n as nat),
{
    let count: u64 = n as u64;
    if count > MAX_CELLS {
        return false;
    }
    let cols: u64 = columns(count);
    let rows: u64 = (count + cols - 1) / cols;
    let ghost nn = n as nat;
    proof {
        law_root_up(nn);
        lemma_cell_place(nn, cols as nat, 0);
    }
    let row_h: i64 = area.h as i64 / rows as i64;
    for i in 0..n
        invariant
            n >= 2,
            nn == n,
            count == n,
            count <= MAX_CELLS,
            1 <= cols <= 0x400_0000,
            cols == root_up(nn),
            cols * cols >= nn,
            rows == rows_of(nn, cols as nat),
            1 <= rows <= cols,
            row_h == quot(area.h as int, rows as int),
            forall|k: int| 0 <= k < i ==> #[trigger] grid_cell_fits(area, nn, k),
    {
        let row: u64 = i as u64 / cols;
        let col: u64 = i as u64 % cols;
        proof {
            lemma_cell_place(nn, cols as nat, i as int);
        }
        assert(row * cols == (i as int / cols as int) * cols);
        let items: u64 = if row == rows - 1 {
            count - row * cols
        } else {
            cols
        };
        assert(items == cells_in_row(nn, cols as nat, row as int));
        let cell_w: i64 = area.w as i64 / items as i64;
        proof {
            lemma_quot(area.w as int, items as int, col as int);
            lemma_quot(area.h as int, rows as int, row as int);
        }
        let x: i64 = area.x as i64 + col as i64 * cell_w;
        let y: i64 = area.y as i64 + row as i64 * row_h;
        if !(in_range(x) && in_range(y)) {
            assert(!grid_cell_fits(area, nn, i as int));
            return false;
        }
        assert(grid_cell_fits(area, nn, i as int));
    }
    true
}

/// Whether `apply_gap` can be called on these arguments.
pub fn can_apply_gap(rects: &Vec<Rect>, gap: i32) -> (yes: bool)
    ensures
        yes == gaps_fit(rects@, gap),
{
    if gap == 0 {
        return true;
    }
    let g: i64 = gap as i64;
    for i in 0..rects.len()
        invariant
            g == gap,
            forall|k: int| 0 <= k < i ==> gap_fits(#[trigger] rects@[k], gap),
    {
        let r = rects[i];
        if !(in_range(r.x as i64 + g) && in_range(r.y as i64 + g) && in_range(2 * g) && in_range(
            r.w as i64 - 2 * g,
        ) && in_range(r.h as i64 - 2 * g)) {
            assert(!gap_fits(rects@[i as int], gap));
            return false;
        }
    }
    true
}

/// Whether `center_rect` can be called on these arguments.
pub fn can_center(area: Rect, w: i32, h: i32) -> (yes: bool)
    ensures
        yes == center_fits(area, w, h),
{
    let dw: i64 = area.w as i64 - w as i64;
    let dh: i64 = area.h as i64 - h as i64;
    in_range(dw) && in_range(dh) && in_range(area.x as i64 + dw / 2) && in_range(
        area.y as i64 + dh / 2,
    )
}

/// Each window gets one rectangle.
pub proof fn law_one_rect_each(layout: Layout, area: Rect, n: nat, master_w: i32, gap: i32)
    ensures
        arranged(layout, area, n, master_w).len() == n,
        with_gap(arranged(layout, area, n, master_w), gap).len() == n,
{
}

/// The master does not depend on how many windows are stacked: it is as wide as it is told, and the
/// stack has the rest of the width.
pub proof fn law_master(area: Rect, n: nat, m: nat, master_w: i32, i: int)
    requires
        2 <= n,
        2 <= m,
        tile_fits(area, n, master_w),
        1 <= i < n,
    ensures
        tile_rects(area, n, master_w)[0] == tile_rects(area, m, master_w)[0],
        tile_rects(area, n, master_w)[0] == (Rect { w: master_w, ..area }),
        tile_rects(area, n, master_w)[i].w == area.w - master_w,
{
}

/// The tiles fill the area: the master takes the left of it, `master_w` wide, the stack takes the
/// rest, each stacked window begins where the one above it ends, the last one ends where the
/// area does, and their heights differ by at most one.
pub proof fn law_tiles_fill_area(area: Rect, n: nat, master_w: i32)
    requires
        n >= 2,
        tile_fits(area, n, master_w),
        area.h >= 0,
    ensures
        tile_rects(area, n, master_w)[0] == (Rect { w: master_w, ..area }),
        forall|i: int|
            1 <= i < n ==> {
                let r = #[trigger] tile_rects(area, n, master_w)[i];
                r.x == area.x + master_w && r.x + r.w == area.x + area.w
            },
        tile_rects(area, n, master_w)[1].y == area.y,
        forall|i: int|
            1 <= i < n - 1 ==> {
                let r = #[trigger] tile_rects(area, n, master_w)[i];
                tile_rects(area, n, master_w)[i + 1].y == r.y + r.h
            },
        tile_rects(area, n, master_w)[n - 1].y + tile_rects(area, n, master_w)[n - 1].h == area.y
            + area.h,
        forall|i: int, j: int|
            1 <= i < n && 1 <= j < n ==> -1 <= (#[trigger] tile_rects(area, n, master_w)[i]).h - (
            #[trigger] tile_rects(area, n, master_w)[j]).h <= 1,
{
    let count = n - 1;
    let base = quot(area.h as int, count);
    let extra = rem(area.h as int, count);
    lemma_quot(area.h as int, count, count);
    assert forall|i: int| 0 <= i < count implies {
        let r = #[trigger] stacked(area, count, master_w, i);
        &&& r.y == area.y + i * base + taller_before(i, extra)
        &&& r.h == base + if i < extra { 1int } else { 0 }
        &&& r.y + r.h == area.y + (i + 1) * base + taller_before(i + 1, extra)
    } by {
        lemma_stack_step(area, count, i, base, extra);
    }
    assert(0 * base == 0) by (nonlinear_arith);
    assert(stacked(area, count, master_w, 0).y == area.y);
    assert forall|i: int| 1 <= i < n - 1 implies {
        let r = #[trigger] tile_rects(area, n, master_w)[i];
        tile_rects(area, n, master_w)[i + 1].y == r.y + r.h
    } by {
        assert(stacked(area, count, master_w, i - 1).y + stacked(area, count, master_w, i - 1).h
            == stacked(area, count, master_w, i).y);
    }
    assert(stacked(area, count, master_w, count - 1).y + stacked(
        area,
        count,
        master_w,
        count - 1,
    ).h == area.y + area.h);
    assert forall|i: int, j: int| 1 <= i < n && 1 <= j < n implies -1 <= (
    #[trigger] tile_rects(area, n, master_w)[i]).h - (#[trigger] tile_rects(
        area,
        n,
        master_w,
    )[j]).h <= 1 by {
        assert(stacked(area, count, master_w, i - 1).h <= base + 1);
        assert(stacked(area, count, master_w, j - 1).h <= base + 1);
    }
}

/// A stacked window ends at or above where a later one begins.
proof fn lemma_stack_sorted(area: Rect, n: nat, master_w: i32, i: int, j: int)
    requires
        n >= 2,
        tile_fits(area, n, master_w),
        area.h >= 0,
        1 <= i < j < n,
    ensures
        tile_rects(area, n, master_w)[i].y + tile_rects(area, n, master_w)[i].h <= tile_rects(
            area,
            n,
            master_w,
        )[j].y,
    decreases j - i,
{
    law_tiles_fill_area(area, n, master_w);
    let r = tile_rects(area, n, master_w);
    assert(r[i + 1].y == r[i].y + r[i].h);
    if i + 1 < j {
        lemma_stack_sorted(area, n, master_w, i + 1, j);
        lemma_tile_height(area, n, master_w, i + 1);
    }
}

/// No stacked window has a negative height.
proof fn lemma_tile_height(area: Rect, n: nat, master_w: i32, i: int)
    requires
        n >= 2,
        tile_fits(area, n, master_w),
        area.h >= 0,
        1 <= i < n,
    ensures
        tile_rects(area, n, master_w)[i].h >= 0,
{
    lemma_quot(area.h as int, n - 1, n - 1);
    lemma_stack_step(
        area,
        n - 1,
        i - 1,
        quot(area.h as int, n - 1),
        rem(area.h as int, n - 1),
    );
}

/// Tiles lie in the area, and no two of them overlap.
pub proof fn law_tiles_apart(area: Rect, n: nat, master_w: i32, i: int, j: int)
    requires
        tile_fits(area, n, master_w),
        0 <= master_w <= area.w,
        area.h >= 0,
        0 <= i < j < n,
    ensures
        tile_rects(area, n, master_w)[i].inside(area),
        tile_rects(area, n, master_w)[j].inside(area),
        tile_rects(area, n, master_w)[i].disjoint(tile_rects(area, n, master_w)[j]),
{
    law_tiles_fill_area(area, n, master_w);
    let r = tile_rects(area, n, master_w);
    lemma_tile_height(area, n, master_w, j);
    if j > 1 {
        lemma_stack_sorted(area, n, master_w, 1, j);
        lemma_tile_height(area, n, master_w, 1);
    }
    if j < n - 1 {
        lemma_stack_sorted(area, n, master_w, j, n - 1);
        lemma_tile_height(area, n, master_w, n - 1);
    }
    if i > 0 {
        lemma_stack_sorted(area, n, master_w, i, j);
        lemma_tile_height(area, n, master_w, i);
        if i > 1 {
            lemma_stack_sorted(area, n, master_w, 1, i);
        }
    }
}

/// Each point of the area lies in some tile.
pub proof fn law_tiles_cover(area: Rect, n: nat, master_w: i32, x: int, y: int)
    requires
        n >= 1,
        tile_fits(area, n, master_w),
        area.has_point(x, y),
    ensures
        exists|i: int| 0 <= i < n && (#[trigger] tile_rects(area, n, master_w)[i]).has_point(x, y),
{
    let r = tile_rects(area, n, master_w);
    if n == 1 {
        assert(r[0].has_point(x, y));
    } else {
        law_tiles_fill_area(area, n, master_w);
        if x < area.x + master_w {
            assert(r[0].has_point(x, y));
        } else {
            let i = lemma_stack_covers(area, n, master_w, y, 1);
            assert(r[i].has_point(x, y));
        }
    }
}

/// Some stacked window from number `from` on spans the height `y`.
proof fn lemma_stack_covers(area: Rect, n: nat, master_w: i32, y: int, from: int) -> (i: int)
    requires
        n >= 2,
        tile_fits(area, n, master_w),
        area.h >= 0,
        1 <= from < n,
        tile_rects(area, n, master_w)[from].y <= y < area.y + area.h,
    ensures
        1 <= i < n,
        tile_rects(area, n, master_w)[i].y <= y < tile_rects(area, n, master_w)[i].y + tile_rects(
            area,
            n,
            master_w,
        )[i].h,
    decreases n - from,
{
    law_tiles_fill_area(area, n, master_w);
    let r = tile_rects(area, n, master_w);
    if y < r[from].y + r[from].h {
        from
    } else {
        assert(from < n - 1);
        lemma_stack_covers(area, n, master_w, y, from + 1)
    }
}

/// The corners and sizes of grid cells, without a cast.
pub proof fn lemma_grid_cell(area: Rect, n: nat, i: int)
    requires
        n >= 2,
        grid_fits(area, n),
        area.w >= 0,
        area.h >= 0,
        0 <= i < n,
    ensures
        ({
            let cols = root_up(n);
            let row = i / cols as int;
            let col = i % cols as int;
            let items = cells_in_row(n, cols, row);
            let rows = rows_of(n, cols) as int;
            let cell_w = quot(area.w as int, items);
            let row_h = quot(area.h as int, rows);
            let r = grid_rects(area, n)[i];
            &&& cols >= 1
            &&& 0 <= row < rows
            &&& 0 <= col < items <= cols
            &&& i == row * cols + col
            &&& cell_w >= 0
            &&& row_h >= 0
            &&& r.x == area.x + col * cell_w
            &&& r.w == cell_w
            &&& (col + 1) * cell_w <= area.w
            &&& 0 <= col * cell_w
            &&& r.y == area.y + row * row_h
            &&& 0 <= row * row_h
            &&& row < rows - 1 ==> r.h == row_h && (row + 1) * row_h <= (rows - 1) * row_h
            &&& row == rows - 1 ==> r.y + r.h == area.y + area.h
            &&& (rows - 1) * row_h <= area.h
        }),
{
    let cols = root_up(n);
    let row = i / cols as int;
    let col = i % cols as int;
    law_root_up(n);
    lemma_cell_place(n, cols, i);
    assert(grid_cell_fits(area, n, i));
    let items = cells_in_row(n, cols, row);
    let rows = rows_of(n, cols) as int;
    let row_h = quot(area.h as int, rows);
    lemma_quot(area.w as int, items, col);
    lemma_quot(area.w as int, items, col + 1);
    lemma_quot(area.h as int, rows, row);
    lemma_quot(area.h as int, rows, rows - 1);
    assert(row < rows - 1 ==> (row + 1) * row_h <= (rows - 1) * row_h) by (nonlinear_arith)
        requires
            row_h >= 0,
    ;
}

/// Grid cells lie in the area, no two of them overlap, and the cells of the last row end where
/// the area does.
pub proof fn law_grid_apart(area: Rect, n: nat, i: int, j: int)
    requires
        grid_fits(area, n),
        area.w >= 0,
        area.h >= 0,
        0 <= i < j < n,
    ensures
        grid_rects(area, n)[i].inside(area),
        grid_rects(area, n)[j].inside(area),
        grid_rects(area, n)[i].disjoint(grid_rects(area, n)[j]),
        grid_rects(area, n)[n - 1].y + grid_rects(area, n)[n - 1].h == area.y + area.h,
{
    let cols = root_up(n) as int;
    let a = grid_rects(area, n)[i];
    let b = grid_rects(area, n)[j];
    lemma_grid_cell(area, n, i);
    lemma_grid_cell(area, n, j);
    lemma_grid_cell(area, n, n - 1);
    law_root_up(n);
    lemma_cell_place(n, cols as nat, n - 1);
    let rows = rows_of(n, cols as nat) as int;
    let row_h = quot(area.h as int, rows);
    let (ri, ci) = (i / cols, i % cols);
    let (rj, cj) = (j / cols, j % cols);
    let last = (n - 1) / cols;
    assert(last == rows - 1) by (nonlinear_arith)
        requires
            cols >= 1,
            rows == (n + cols - 1) / cols,
            last == (n - 1) / cols,
            n >= 1,
    ;
    let wi = quot(area.w as int, cells_in_row(n, cols as nat, ri));
    let wj = quot(area.w as int, cells_in_row(n, cols as nat, rj));
    assert((ci + 1) * wi == ci * wi + wi && (cj + 1) * wj == cj * wj + wj) by (nonlinear_arith);
    assert((ri + 1) * row_h == ri * row_h + row_h && (rj + 1) * row_h == rj * row_h + row_h)
        by (nonlinear_arith);
    assert(ri <= rj) by (nonlinear_arith)
        requires
            cols >= 1,
            ri == i / cols,
            rj == j / cols,
            i < j,
    ;
    if ri < rj {
        assert((ri + 1) * row_h <= rj * row_h) by (nonlinear_arith)
            requires
                ri + 1 <= rj,
                row_h >= 0,
        ;
        assert(a.y + a.h <= b.y);
    } else {
        assert(ci < cj);
        assert((ci + 1) * wi <= cj * wi) by (nonlinear_arith)
            requires
                ci + 1 <= cj,
                wi >= 0,
        ;
        assert(a.x + a.w <= b.x);
    }
}

/// A gap draws rectangles that are larger than it into themselves, so that those which did not
/// overlap still do not.
pub proof fn law_gap_keeps_apart(rects: Seq<Rect>, gap: i32, i: int, j: int)
    requires
        gap >= 0,
        gaps_fit(rects, gap),
        0 <= i < rects.len(),
        0 <= j < rects.len(),
        rects[i].w > 2 * gap,
        rects[i].h > 2 * gap,
        rects[j].w > 2 * gap,
        rects[j].h > 2 * gap,
        rects[i].disjoint(rects[j]),
    ensures
        with_gap(rects, gap)[i].inside(rects[i]),
        with_gap(rects, gap)[i].disjoint(with_gap(rects, gap)[j]),
{
    if gap != 0 {
        assert(gap_fits(rects[i], gap) && gap_fits(rects[j], gap));
        let a = with_gap(rects, gap)[i];
        let b = with_gap(rects, gap)[j];
        assert forall|x: int, y: int| !(#[trigger] a.has_point(x, y) && b.has_point(x, y)) by {
            assert(a.has_point(x, y) ==> rects[i].has_point(x, y));
            assert(b.has_point(x, y) ==> rects[j].has_point(x, y));
        }
    }
}

/// A rectangle that is no larger than the area lies in it when it is centred, and its margins on
/// opposite sides differ by at most one.
pub proof fn law_centered(area: Rect, w: i32, h: i32)
    requires
        center_fits(area, w, h),
        w <= area.w,
        h <= area.h,
    ensures
        centered(area, w, h).w == w,
        centered(area, w, h).h == h,
        centered(area, w, h).inside(area),
        ({
            let r = centered(area, w, h);
            let left = r.x - area.x;
            let right = area.x + area.w - (r.x + r.w);
            let above = r.y - area.y;
            let below = area.y + area.h - (r.y + r.h);
            0 <= right - left <= 1 && 0 <= below - above <= 1
        }),
{
}

} // verus!
