//! Core identity and geometry types, in the source-pixel coordinate frame.

use vstd::prelude::*;

use crate::ieee::Single;

verus! {

/// Stable node identity, a dotted namespace such as `"xform.display"`.
#[derive(Clone, Copy, Debug, PartialEq, Eq, Hash)]
pub struct NodeId(pub &'static str);

impl View for NodeId {
    type V = Seq<char>;

    open spec fn view(&self) -> Seq<char> {
        self.0@
    }
}

/// Pipeline process version, stored per image and append-only.
#[derive(Clone, Copy, Debug, PartialEq, Eq, Hash, Structural)]
pub struct ProcessVersion(pub u16);

/// A pixel extent (width by height).
#[derive(Clone, Copy, Debug, PartialEq, Eq, Structural)]
pub struct Extent {
    /// Width in pixels.
    pub w: u32,
    /// Height in pixels.
    pub h: u32,
}

/// A region of interest, in source-pixel coordinates.
#[derive(Clone, Copy, Debug, PartialEq, Eq, Structural)]
pub struct Roi {
    /// Left edge (may be negative for apron growth past the image border).
    pub x: i32,
    /// Top edge.
    pub y: i32,
    /// Width in pixels.
    pub w: u32,
    /// Height in pixels.
    pub h: u32,
}

/// Coordinates of one tile: grid position plus the quantized scale it was
/// evaluated at.
#[derive(Clone, Copy, Debug, PartialEq, Eq, Hash, Structural)]
pub struct TileCoord {
    /// Tile column.
    pub tx: u32,
    /// Tile row.
    pub ty: u32,
    /// Quantized render scale, in 1/64ths.
    pub scale_q: u16,
}

/// How much of the source resolution a render evaluates at.
#[derive(Clone, Copy, Debug, PartialEq, Eq, Structural)]
pub enum RenderScale {
    /// Decimated so that the output fits the given viewport.
    Fit(Extent),
    /// An explicit fraction of the source resolution.
    Ratio(Single),
    /// One source pixel per output pixel.
    OneToOne,
}

/// Typed image-port kind; graph edges are type-checked when they are made.
#[derive(Clone, Copy, Debug, PartialEq, Eq, Structural)]
pub enum PortType {
    /// Raw sensor mosaic.
    MosaicU16,
    /// The working format: scene-linear RGBA, 16-bit float.
    LinearRgbaF16,
    /// Precision escape hatch for accumulation-heavy stages.
    LinearRgbaF32,
    /// Grayscale mask weights.
    WeightR16,
    /// Display-transformed output.
    DisplayRgba8,
}

/// Output tile precision.
#[derive(Clone, Copy, Debug, PartialEq, Eq, Structural)]
pub enum TilePrecision {
    /// 16-bit float storage (the default).
    F16,
    /// 32-bit float storage, for accumulation-sensitive stages.
    F32,
}

/// `v` moved into the closed range `lo..=hi`.
pub open spec fn clamp(v: int, lo: int, hi: int) -> int {
    if v < lo {
        lo
    } else if v > hi {
        hi
    } else {
        v
    }
}

/// Clamps a 64-bit coordinate to the 32-bit signed range.
fn clamp_to_i32(v: i64) -> (r: i32)
    ensures
        r == clamp(v as int, i32::MIN as int, i32::MAX as int),
{
    if v < -2147483648 {
        i32::MIN
    } else if v > 2147483647 {
        i32::MAX
    } else {
        v as i32
    }
}

/// Clamps a 64-bit length to the 32-bit unsigned range.
pub fn saturate_to_u32(v: u64) -> (r: u32)
    ensures
        r == clamp(v as int, 0, u32::MAX as int),
{
    if v > 4294967295 {
        u32::MAX
    } else {
        v as u32
    }
}

/// The column (or row) of the `size`-pixel grid that holds pixel `p`.
pub open spec fn cell(p: int, size: int) -> int {
    p / size
}

/// The first grid cell touched by the pixels `lo..lo + len` at or past the
/// grid origin.
pub open spec fn first_cell(lo: int, size: int) -> int {
    cell(if lo > 0 { lo } else { 0 }, size)
}

/// How many consecutive grid cells the pixels `lo..lo + len` at or past the
/// grid origin touch.
pub open spec fn cell_count(lo: int, len: int, size: int) -> int {
    if len > 0 && lo + len > 0 {
        cell(lo + len - 1, size) - first_cell(lo, size) + 1
    } else {
        0
    }
}

/// The grid pitch a requested tile size stands for (never zero).
pub open spec fn pitch(size: u32) -> int {
    if size == 0 {
        1
    } else {
        size as int
    }
}

/// `r` is the region of the pixels that `a` and `b` share, `None` when there
/// are none.
pub open spec fn common_region(a: Roi, b: Roi, r: Option<Roi>) -> bool {
    match r {
        Some(i) => {
            &&& i.w > 0 && i.h > 0
            &&& forall|px: int, py: int| #[trigger]
                i.contains(px, py) <==> a.contains(px, py) && b.contains(px, py)
        },
        None => forall|px: int, py: int|
            !(#[trigger] a.contains(px, py) && #[trigger] b.contains(px, py)),
    }
}

impl Roi {
    /// Whether the region holds the pixel `(px, py)`.
    pub open spec fn contains(self, px: int, py: int) -> bool {
        &&& self.x <= px < self.x + self.w
        &&& self.y <= py < self.y + self.h
    }

    /// The region grown by `margin` on every side, saturating.
    pub open spec fn expanded(self, margin: int) -> Roi {
        Roi {
            x: clamp(self.x - margin, i32::MIN as int, i32::MAX as int) as i32,
            y: clamp(self.y - margin, i32::MIN as int, i32::MAX as int) as i32,
            w: clamp(self.w + 2 * margin, 0, u32::MAX as int) as u32,
            h: clamp(self.h + 2 * margin, 0, u32::MAX as int) as u32,
        }
    }

    /// How many tile columns the region touches.
    pub open spec fn tile_columns(self, size: u32) -> int {
        if self.h == 0 || self.y + self.h <= 0 {
            0
        } else {
            cell_count(self.x as int, self.w as int, pitch(size))
        }
    }

    /// How many tile rows the region touches.
    pub open spec fn tile_rows(self, size: u32) -> int {
        if self.w == 0 || self.x + self.w <= 0 {
            0
        } else {
            cell_count(self.y as int, self.h as int, pitch(size))
        }
    }

    /// The `k`-th tile of the covering grid, in row-major order. Grid
    /// positions are kept modulo 2^32.
    pub open spec fn tile_at(self, size: u32, k: int) -> TileCoord {
        let columns = self.tile_columns(size);
        let tx = first_cell(self.x as int, pitch(size)) + k % columns;
        let ty = first_cell(self.y as int, pitch(size)) + k / columns;
        TileCoord {
            tx: (tx % 0x1_0000_0000) as u32,
            ty: (ty % 0x1_0000_0000) as u32,
            scale_q: 0,
        }
    }

    /// The covering tile grid, row by row.
    pub open spec fn tile_grid(self, size: u32) -> Seq<TileCoord> {
        Seq::new(
            (self.tile_columns(size) * self.tile_rows(size)) as nat,
            |k: int| self.tile_at(size, k),
        )
    }

    /// The right edge (exclusive), wide enough never to overflow.
    pub fn right(&self) -> (r: i64)
        ensures
            r == self.x + self.w,
    {
        self.x as i64 + self.w as i64
    }

    /// The bottom edge (exclusive).
    pub fn bottom(&self) -> (r: i64)
        ensures
            r == self.y + self.h,
    {
        self.y as i64 + self.h as i64
    }

    /// The pixel area, `w * h`.
    pub fn area(&self) -> (r: u64)
        ensures
            r == self.w * self.h,
    {
        assert(self.w * self.h <= 0xffff_ffff * 0xffff_ffff) by (nonlinear_arith)
            requires
                0 <= self.w <= 0xffff_ffff,
                0 <= self.h <= 0xffff_ffff,
        ;
        self.w as u64 * self.h as u64
    }

    /// Apron growth for neighborhood nodes: the origin moves up and left by
    /// `margin` (possibly past the image border) and the extent grows by twice
    /// the margin; every field saturates.
    pub fn expand(&self, margin: u32) -> (r: Roi)
        ensures
            r == self.expanded(margin as int),
    {
        let m: i64 = margin as i64;
        let grow: u64 = margin as u64 * 2;
        Roi {
            x: clamp_to_i32(self.x as i64 - m),
            y: clamp_to_i32(self.y as i64 - m),
            w: saturate_to_u32(self.w as u64 + grow),
            h: saturate_to_u32(self.h as u64 + grow),
        }
    }

    /// The region holding exactly the pixels of both regions, or `None` when
    /// they share no pixel.
    pub fn intersect(&self, other: &Roi) -> (r: Option<Roi>)
        ensures
            common_region(*self, *other, r),
    {
        if self.w == 0 || self.h == 0 || other.w == 0 || other.h == 0 {
            return None;
        }
        let x0: i64 = if self.x > other.x { self.x as i64 } else { other.x as i64 };
        let y0: i64 = if self.y > other.y { self.y as i64 } else { other.y as i64 };
        let x1: i64 = if self.right() < other.right() { self.right() } else { other.right() };
        let y1: i64 = if self.bottom() < other.bottom() { self.bottom() } else { other.bottom() };
        if x1 > x0 && y1 > y0 {
            Some(Roi { x: x0 as i32, y: y0 as i32, w: (x1 - x0) as u32, h: (y1 - y0) as u32 })
        } else {
            None
        }
    }

    /// The `size`-pixel tile grid covering this region, anchored to the global
    /// source-pixel grid at the origin so that tile coordinates are stable
    /// across regions. Parts past the top or left border are clamped to the
    /// grid origin. `scale_q` is left zero.
    pub fn tiles(&self, size: u32) -> (r: Vec<TileCoord>)
        ensures
            r@ == self.tile_grid(size),
    {
        let step: i64 = if size == 0 { 1 } else { size as i64 };
        let mut coords: Vec<TileCoord> = Vec::new();
        let left: i64 = if self.x > 0 { self.x as i64 } else { 0 };
        let top: i64 = if self.y > 0 { self.y as i64 } else { 0 };
        let right: i64 = self.right();
        let bottom: i64 = self.bottom();
        if self.w == 0 || self.h == 0 || right <= left || bottom <= top {
            assert(coords@ =~= self.tile_grid(size));
            return coords;
        }
        let tx0: i64 = left / step;
        let tx1: i64 = (right - 1) / step;
        let ty0: i64 = top / step;
        let ty1: i64 = (bottom - 1) / step;
        let ghost columns = self.tile_columns(size);
        let ghost rows = self.tile_rows(size);
        proof {
            lemma_quotients(left as int, right - 1, step as int);
            lemma_quotients(top as int, bottom - 1, step as int);
        }
        let mut ty: i64 = ty0;
        while ty <= ty1
            invariant
                self.w > 0,
                self.h > 0,
                step == pitch(size),
                tx0 == first_cell(self.x as int, step as int),
                ty0 == first_cell(self.y as int, step as int),
                columns == self.tile_columns(size),
                rows == self.tile_rows(size),
                columns == tx1 - tx0 + 1,
                rows == ty1 - ty0 + 1,
                0 <= tx0 <= tx1 < 0x2_0000_0000,
                0 <= ty0 <= ty <= ty1 + 1,
                ty1 < 0x2_0000_0000,
                coords@.len() == (ty - ty0) * columns,
                forall|k: int| 0 <= k < coords@.len() ==> coords@[k] == self.tile_at(size, k),
            decreases ty1 + 1 - ty,
        {
            let mut tx: i64 = tx0;
            proof {
                assert((ty - ty0) * columns + 0 == (ty - ty0) * columns);
            }
            while tx <= tx1
                invariant
                    step == pitch(size),
                    tx0 == first_cell(self.x as int, step as int),
                    ty0 == first_cell(self.y as int, step as int),
                    columns == self.tile_columns(size),
                    columns == tx1 - tx0 + 1,
                    0 <= tx0 <= tx <= tx1 + 1,
                    tx1 < 0x2_0000_0000,
                    0 <= ty0 <= ty <= ty1 < 0x2_0000_0000,
                    coords@.len() == (ty - ty0) * columns + (tx - tx0),
                    forall|k: int| 0 <= k < coords@.len() ==> coords@[k] == self.tile_at(size, k),
                decreases tx1 + 1 - tx,
            {
                proof {
                    lemma_row_major(ty - ty0, tx - tx0, columns);
                }
                coords.push(
                    TileCoord {
                        tx: (tx % 0x1_0000_0000) as u32,
                        ty: (ty % 0x1_0000_0000) as u32,
                        scale_q: 0,
                    },
                );
                tx = tx + 1;
            }
            proof {
                assert((ty + 1 - ty0) * columns == (ty - ty0) * columns + columns)
                    by (nonlinear_arith);
            }
            ty = ty + 1;
        }
        proof {
            assert(rows * columns == columns * rows) by (nonlinear_arith);
            assert(coords@ =~= self.tile_grid(size));
        }
        coords
    }
}

/// Growing a region by nothing leaves it alone.
pub proof fn law_expand_zero(r: Roi)
    ensures
        r.expanded(0) == r,
{
}

/// Away from the coordinate limits the grown region holds exactly the pixels
/// that lie within `margin` of a pixel of the region, along each axis.
pub proof fn law_expand_is_an_apron(r: Roi, margin: u32, px: int, py: int)
    requires
        r.w > 0,
        r.h > 0,
        r.x - margin >= i32::MIN,
        r.y - margin >= i32::MIN,
        r.w + 2 * margin <= u32::MAX,
        r.h + 2 * margin <= u32::MAX,
    ensures
        r.expanded(margin as int).contains(px, py) <==> exists|qx: int, qy: int| #[trigger]
            r.contains(qx, qy) && -margin <= px - qx <= margin && -margin <= py - qy <= margin,
{
    if r.expanded(margin as int).contains(px, py) {
        let qx = clamp(px, r.x as int, r.x + r.w - 1);
        let qy = clamp(py, r.y as int, r.y + r.h - 1);
        assert(r.contains(qx, qy));
    }
}

/// The common region does not depend on the order of the two regions, and
/// there is only one.
pub proof fn law_intersect_commutes(a: Roi, b: Roi, ab: Option<Roi>, ba: Option<Roi>)
    requires
        common_region(a, b, ab),
        common_region(b, a, ba),
    ensures
        ab == ba,
{
    if let Some(i) = ab {
        assert(i.contains(i.x as int, i.y as int));
        assert(i.contains(i.x + i.w - 1, i.y + i.h - 1));
        assert(ba is Some);
        let j = ba->Some_0;
        assert(j.contains(j.x as int, j.y as int));
        assert(j.contains(j.x + j.w - 1, j.y + j.h - 1));
        assert(j.contains(i.x as int, i.y as int));
        assert(j.contains(i.x + i.w - 1, i.y + i.h - 1));
        assert(i.contains(j.x as int, j.y as int));
        assert(i.contains(j.x + j.w - 1, j.y + j.h - 1));
    }
    if let Some(j) = ba {
        assert(j.contains(j.x as int, j.y as int));
        assert(a.contains(j.x as int, j.y as int) && b.contains(j.x as int, j.y as int));
    }
}

/// An empty region intersects nothing.
pub proof fn law_empty_never_intersects(a: Roi, b: Roi, r: Option<Roi>)
    requires
        a.w == 0 || a.h == 0,
        common_region(a, b, r),
    ensures
        r is None,
{
    if let Some(i) = r {
        assert(i.contains(i.x as int, i.y as int));
    }
}

/// Whether every tile position of the region's grid fits a tile coordinate.
pub open spec fn grid_fits(r: Roi, size: u32) -> bool {
    &&& cell(r.x + r.w - 1, pitch(size)) <= u32::MAX
    &&& cell(r.y + r.h - 1, pitch(size)) <= u32::MAX
}

/// The tile that holds the pixel `(px, py)` of the global grid.
pub open spec fn tile_of(px: int, py: int, size: u32) -> TileCoord {
    TileCoord {
        tx: cell(px, pitch(size)) as u32,
        ty: cell(py, pitch(size)) as u32,
        scale_q: 0,
    }
}

/// Every pixel of the region at or past the grid origin lies in a tile of the
/// region's grid.
pub proof fn law_tiles_cover_every_pixel(r: Roi, size: u32, px: int, py: int)
    requires
        grid_fits(r, size),
        r.contains(px, py),
        px >= 0,
        py >= 0,
    ensures
        r.tile_grid(size).contains(tile_of(px, py, size)),
{
    let step = pitch(size);
    let left = if r.x > 0 { r.x as int } else { 0 };
    let top = if r.y > 0 { r.y as int } else { 0 };
    lemma_quotients(left, px, step);
    lemma_quotients(px, r.x + r.w - 1, step);
    lemma_quotients(top, py, step);
    lemma_quotients(py, r.y + r.h - 1, step);
    let columns = r.tile_columns(size);
    let rows = r.tile_rows(size);
    let row = cell(py, step) - first_cell(r.y as int, step);
    let column = cell(px, step) - first_cell(r.x as int, step);
    let k = row * columns + column;
    lemma_row_major(row, column, columns);
    assert(k < columns * rows) by (nonlinear_arith)
        requires
            k == row * columns + column,
            0 <= row < rows,
            0 <= column < columns,
    ;
    assert(r.tile_grid(size)[k] == tile_of(px, py, size));
}

/// The row and column of a row-major index stay inside the grid.
proof fn lemma_row_major_bounds(k: int, columns: int, rows: int)
    requires
        0 <= k < columns * rows,
        columns >= 0,
        rows >= 0,
    ensures
        columns > 0,
        rows > 0,
        0 <= k % columns < columns,
        0 <= k / columns < rows,
        k == (k / columns) * columns + k % columns,
{
    assert(columns > 0 && rows > 0) by (nonlinear_arith)
        requires
            0 <= k < columns * rows,
            columns >= 0,
            rows >= 0,
    ;
    vstd::arithmetic::div_mod::lemma_fundamental_div_mod(k, columns);
    vstd::arithmetic::div_mod::lemma_mod_bound(k, columns);
    vstd::arithmetic::div_mod::lemma_div_pos_is_pos(k, columns);
    assert(k / columns < rows) by (nonlinear_arith)
        requires
            k == columns * (k / columns) + k % columns,
            0 <= k % columns,
            0 < columns,
            k < columns * rows,
    ;
    assert(columns * (k / columns) == (k / columns) * columns) by (nonlinear_arith);
}

/// Every tile of the region's grid holds a pixel of the region: the grid has
/// no tile to spare.
pub proof fn law_tiles_touch_the_region(r: Roi, size: u32, k: int)
    requires
        grid_fits(r, size),
        0 <= k < r.tile_grid(size).len(),
    ensures
        exists|px: int, py: int| #[trigger]
            r.contains(px, py) && px >= 0 && py >= 0 && tile_of(px, py, size) == r.tile_grid(
                size,
            )[k],
{
    let step = pitch(size);
    let columns = r.tile_columns(size);
    let rows = r.tile_rows(size);
    let left = if r.x > 0 { r.x as int } else { 0 };
    let top = if r.y > 0 { r.y as int } else { 0 };
    if r.w > 0 && r.x + r.w > 0 {
        lemma_quotients(left, r.x + r.w - 1, step);
    }
    if r.h > 0 && r.y + r.h > 0 {
        lemma_quotients(top, r.y + r.h - 1, step);
    }
    lemma_row_major_bounds(k, columns, rows);
    let tx = first_cell(r.x as int, step) + k % columns;
    let ty = first_cell(r.y as int, step) + k / columns;
    let px = lemma_cell_has_a_pixel(left, r.x + r.w, step, tx);
    let py = lemma_cell_has_a_pixel(top, r.y + r.h, step, ty);
    assert(r.contains(px, py));
    assert(tile_of(px, py, size) == r.tile_grid(size)[k]);
}

/// Between the cell of the first and of the last pixel of a span every cell
/// holds a pixel of the span.
proof fn lemma_cell_has_a_pixel(lo: int, hi: int, step: int, t: int) -> (p: int)
    requires
        0 <= lo < hi,
        step > 0,
        cell(lo, step) <= t <= cell(hi - 1, step),
    ensures
        lo <= p < hi,
        cell(p, step) == t,
{
    vstd::arithmetic::div_mod::lemma_fundamental_div_mod(lo, step);
    vstd::arithmetic::div_mod::lemma_mod_bound(lo, step);
    vstd::arithmetic::div_mod::lemma_fundamental_div_mod(hi - 1, step);
    vstd::arithmetic::div_mod::lemma_mod_bound(hi - 1, step);
    if t == cell(lo, step) {
        lo
    } else {
        let p = t * step;
        vstd::arithmetic::div_mod::lemma_fundamental_div_mod_converse(p, step, t, 0);
        assert(lo <= p) by (nonlinear_arith)
            requires
                lo == step * (lo / step) + lo % step,
                lo % step < step,
                lo / step + 1 <= t,
                p == t * step,
                step > 0,
        ;
        assert(p <= hi - 1) by (nonlinear_arith)
            requires
                hi - 1 == step * ((hi - 1) / step) + (hi - 1) % step,
                0 <= (hi - 1) % step,
                t <= (hi - 1) / step,
                p == t * step,
                step > 0,
        ;
        p
    }
}

/// No tile occurs twice in a region's grid, and the grid is listed row by row.
pub proof fn law_tiles_are_row_major(r: Roi, size: u32, i: int, j: int)
    requires
        grid_fits(r, size),
        0 <= i < j < r.tile_grid(size).len(),
    ensures
        ({
            let a = r.tile_grid(size)[i];
            let b = r.tile_grid(size)[j];
            a.ty < b.ty || (a.ty == b.ty && a.tx < b.tx)
        }),
{
    let step = pitch(size);
    let columns = r.tile_columns(size);
    let rows = r.tile_rows(size);
    let left = if r.x > 0 { r.x as int } else { 0 };
    let top = if r.y > 0 { r.y as int } else { 0 };
    if r.w > 0 && r.x + r.w > 0 {
        lemma_quotients(left, r.x + r.w - 1, step);
    }
    if r.h > 0 && r.y + r.h > 0 {
        lemma_quotients(top, r.y + r.h - 1, step);
    }
    lemma_row_major_bounds(i, columns, rows);
    lemma_row_major_bounds(j, columns, rows);
    assert(i / columns < j / columns || (i / columns == j / columns && i % columns < j % columns))
        by (nonlinear_arith)
        requires
            i < j,
            0 < columns,
            0 <= i % columns < columns,
            0 <= j % columns < columns,
            i == (i / columns) * columns + i % columns,
            j == (j / columns) * columns + j % columns,
    ;
}

/// Dividing an ordered pair of non-negative numbers by the same positive step
/// keeps their order and does not enlarge them.
pub proof fn lemma_quotients(a: int, b: int, step: int)
    requires
        0 <= a <= b,
        step > 0,
    ensures
        0 <= a / step <= b / step <= b,
{
    assert(0 <= a / step <= b / step <= b) by (nonlinear_arith)
        requires
            0 <= a <= b,
            step > 0,
    ;
}

/// A row-major index splits back into its row and column.
pub proof fn lemma_row_major(row: int, column: int, columns: int)
    requires
        0 <= row,
        0 <= column < columns,
    ensures
        (row * columns + column) / columns == row,
        (row * columns + column) % columns == column,
        0 <= row * columns + column,
{
    vstd::arithmetic::div_mod::lemma_fundamental_div_mod_converse(
        row * columns + column,
        columns,
        row,
        column,
    );
    assert(0 <= row * columns) by (nonlinear_arith)
        requires
            0 <= row,
            0 < columns,
    ;
}

/// Clamping gives the nearest number of the range: the number itself where it is
/// inside, and the end it lies beyond otherwise.
pub proof fn law_clamping_gives_the_nearest(v: int, lo: int, hi: int)
    requires
        lo <= hi,
    ensures
        lo <= clamp(v, lo, hi) <= hi,
        lo <= v <= hi ==> clamp(v, lo, hi) == v,
        v < lo ==> clamp(v, lo, hi) == lo,
        v > hi ==> clamp(v, lo, hi) == hi,
{
}

/// A tile holds the pixels from its corner up to the next tile's: `size` of them
/// each way, and one where the size is zero.
pub proof fn law_a_tile_holds_its_own_pixels(px: int, py: int, size: u32)
    requires
        0 <= px,
        0 <= py,
        cell(px, pitch(size)) <= u32::MAX,
        cell(py, pitch(size)) <= u32::MAX,
    ensures
        ({
            let t = tile_of(px, py, size);
            let n: int = if size == 0 { 1 } else { size as int };
            &&& t.tx * n <= px < t.tx * n + n
            &&& t.ty * n <= py < t.ty * n + n
            &&& t.scale_q == 0
        }),
{
    let n = pitch(size);
    vstd::arithmetic::div_mod::lemma_fundamental_div_mod(px, n);
    vstd::arithmetic::div_mod::lemma_mod_bound(px, n);
    vstd::arithmetic::div_mod::lemma_fundamental_div_mod(py, n);
    vstd::arithmetic::div_mod::lemma_mod_bound(py, n);
    lemma_quotients(px, px, n);
    lemma_quotients(py, py, n);
    assert(n * (px / n) == (px / n) * n && n * (py / n) == (py / n) * n) by (nonlinear_arith);
}

/// Growing never shrinks a region: away from the limits both edges move out by
/// the margin, and at a limit they stop there.
pub proof fn law_expand_moves_every_edge(r: Roi, margin: u32)
    ensures
        ({
            let e = r.expanded(margin as int);
            &&& e.x == if r.x - margin < i32::MIN { i32::MIN as int } else { r.x - margin }
            &&& e.y == if r.y - margin < i32::MIN { i32::MIN as int } else { r.y - margin }
            &&& e.w == if r.w + 2 * margin > u32::MAX { u32::MAX as int } else { r.w + 2 * margin }
            &&& e.h == if r.h + 2 * margin > u32::MAX { u32::MAX as int } else { r.h + 2 * margin }
        }),
{
}

/// A region without pixels at or past the grid origin has no tiles, and any other
/// region has one.
pub proof fn law_only_visible_regions_have_tiles(r: Roi, size: u32)
    ensures
        r.tile_grid(size).len() > 0 <==> r.w > 0 && r.h > 0 && r.x + r.w > 0 && r.y + r.h > 0,
{
    let step = pitch(size);
    if r.w > 0 && r.h > 0 && r.x + r.w > 0 && r.y + r.h > 0 {
        lemma_quotients(if r.x > 0 { r.x as int } else { 0 }, r.x + r.w - 1, step);
        lemma_quotients(if r.y > 0 { r.y as int } else { 0 }, r.y + r.h - 1, step);
        assert(r.tile_columns(size) * r.tile_rows(size) > 0) by (nonlinear_arith)
            requires
                r.tile_columns(size) > 0,
                r.tile_rows(size) > 0,
        ;
    } else {
        assert(r.tile_columns(size) == 0 || r.tile_rows(size) == 0);
        assert(r.tile_columns(size) * r.tile_rows(size) == 0) by (nonlinear_arith)
            requires
                r.tile_columns(size) == 0 || r.tile_rows(size) == 0,
        ;
    }
}

/// A region holds the pixels from its corner up to, and without, its far edges;
/// what two regions share reaches from the later start to the earlier end.
pub proof fn law_shared_regions_reach_from_the_later_start(a: Roi, b: Roi, i: Roi, px: int, py: int)
    requires
        common_region(a, b, Some(i)),
    ensures
        a.contains(px, py) <==> a.x <= px && px < a.x + a.w && a.y <= py && py < a.y + a.h,
        i.x == if a.x > b.x { a.x } else { b.x },
        i.y == if a.y > b.y { a.y } else { b.y },
        i.x + i.w == if a.x + a.w < b.x + b.w { a.x + a.w } else { b.x + b.w },
        i.y + i.h == if a.y + a.h < b.y + b.h { a.y + a.h } else { b.y + b.h },
{
    let x0 = if a.x > b.x { a.x as int } else { b.x as int };
    let y0 = if a.y > b.y { a.y as int } else { b.y as int };
    let x1 = if a.x + a.w < b.x + b.w { a.x + a.w } else { b.x + b.w };
    let y1 = if a.y + a.h < b.y + b.h { a.y + a.h } else { b.y + b.h };
    assert(i.contains(i.x as int, i.y as int));
    assert(i.contains(i.x + i.w - 1, i.y + i.h - 1));
    assert(a.contains(i.x as int, i.y as int) && b.contains(i.x as int, i.y as int));
    assert(a.contains(i.x + i.w - 1, i.y + i.h - 1) && b.contains(i.x + i.w - 1, i.y + i.h - 1));
    assert(a.contains(x0, y0) && b.contains(x0, y0));
    assert(i.contains(x0, y0));
    assert(a.contains(x1 - 1, y1 - 1) && b.contains(x1 - 1, y1 - 1));
    assert(i.contains(x1 - 1, y1 - 1));
}

} // verus!
