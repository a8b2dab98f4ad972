//! A raster of colours: a grid of fixed width and height, filled pixel by
//! pixel and read out row by row.

use vstd::prelude::*;
use vstd::arithmetic::div_mod::lemma_fundamental_div_mod_converse;
use crate::colour::Colour;

verus! {

/// A grid of `width` by `height` colours, addressed by column `x` and row
/// `y`.
///
/// The cells live in an `ndarray::Array2` whose first axis is `x`. Verus does
/// not look into that array: what it holds goes by the names [`grid_shape`]
/// and [`grid_cells`], and the four private functions that touch it,
/// `filled`, `shape`, `cell` and `put`, have contracts that are taken on
/// trust. Everything else here is proved from those four.
#[verifier::external_body]
pub struct Raster {
    cells: ndarray::Array2<Colour>,
}

/// The colour of each cell of the array, by `(x, y)`.
pub uninterp spec fn grid_cells(raster: Raster) -> Map<(int, int), Colour>;

/// The lengths of the array's two axes: width, then height.
pub uninterp spec fn grid_shape(raster: Raster) -> (nat, nat);

/// The mathematical content of a raster.
pub struct RasterView {
    pub width: nat,
    pub height: nat,
    pub cells: Map<(int, int), Colour>,
}

impl RasterView {
    /// Whether `(x, y)` names a cell.
    pub open spec fn contains(self, x: int, y: int) -> bool {
        0 <= x < self.width && 0 <= y < self.height
    }

    /// The colour of the cell at `(x, y)`.
    pub open spec fn at(self, x: int, y: int) -> Colour {
        self.cells[(x, y)]
    }

    /// Byte `i` of the raster written out row after row from the top, each
    /// row from the left, each cell as its red, green and blue.
    pub open spec fn rgb_byte(self, i: int) -> u8 {
        let cell = i / 3;
        let colour = self.at(cell % (self.width as int), cell / (self.width as int));
        if i % 3 == 0 {
            colour.r
        } else if i % 3 == 1 {
            colour.g
        } else {
            colour.b
        }
    }

    /// The raster written out in that order.
    pub open spec fn rgb_bytes(self) -> Seq<u8> {
        Seq::new(3 * self.width * self.height, |i: int| self.rgb_byte(i))
    }
}

/// Where a cell stands among the bytes: the cell at `(x, y)` takes the three
/// bytes from `3 * (y * width + x)` on, red first.
pub proof fn lemma_rgb_bytes_of_cell(raster: RasterView, x: int, y: int)
    requires
        raster.contains(x, y),
    ensures
        0 <= 3 * (y * raster.width + x),
        3 * (y * raster.width + x) + 2 < raster.rgb_bytes().len(),
        raster.rgb_bytes()[3 * (y * raster.width + x)] == raster.at(x, y).r,
        raster.rgb_bytes()[3 * (y * raster.width + x) + 1] == raster.at(x, y).g,
        raster.rgb_bytes()[3 * (y * raster.width + x) + 2] == raster.at(x, y).b,
{
    let width = raster.width as int;
    let height = raster.height as int;
    let cell = y * width + x;
    assert(0 <= y * width) by (nonlinear_arith)
        requires
            0 <= y,
            0 <= width,
    ;
    assert(cell + 1 <= width * height) by (nonlinear_arith)
        requires
            cell == y * width + x,
            0 <= x < width,
            0 <= y < height,
    ;
    assert(3 * raster.width * raster.height == 3 * (width * height)) by (nonlinear_arith)
        requires
            width == raster.width,
            height == raster.height,
    ;
    lemma_fundamental_div_mod_converse(cell, width, y, x);
    lemma_fundamental_div_mod_converse(3 * cell, 3, cell, 0);
    lemma_fundamental_div_mod_converse(3 * cell + 1, 3, cell, 1);
    lemma_fundamental_div_mod_converse(3 * cell + 2, 3, cell, 2);
}

impl View for Raster {
    type V = RasterView;

    open spec fn view(&self) -> RasterView {
        RasterView {
            width: grid_shape(*self).0,
            height: grid_shape(*self).1,
            cells: grid_cells(*self),
        }
    }
}

/// The length of an axis as it counts towards the size of an array: an empty
/// axis counts as one.
pub open spec fn axis_weight(length: nat) -> nat {
    if length == 0 {
        1
    } else {
        length
    }
}

/// Whether a raster of this width and height can be held in memory: its
/// non-empty axes multiply to at most `isize::MAX`, and so do its cells at
/// three bytes each.
pub open spec fn fits(width: nat, height: nat) -> bool {
    &&& axis_weight(width) * axis_weight(height) <= isize::MAX
    &&& width * height * 3 <= isize::MAX
}

impl Raster {
    /// Calls `ndarray::Array2::from_elem` with the shape `(width, height)`.
    /// Taken on trust: the array it returns has that shape and holds `fill`
    /// in every cell. The call panics where the non-empty axes multiply to
    /// more than `isize::MAX`, and the vector behind it where the cells take
    /// more than `isize::MAX` bytes, so both are ruled out beforehand.
    #[verifier::external_body]
    fn filled(width: usize, height: usize, fill: Colour) -> (raster: Raster)
        requires
            fits(width as nat, height as nat),
        ensures
            grid_shape(raster) == (width as nat, height as nat),
            forall|x: int, y: int|
                0 <= x < width && 0 <= y < height ==> #[trigger] grid_cells(raster)[(x, y)]
                    == fill,
    {
        Raster { cells: ndarray::Array2::from_elem((width, height), fill) }
    }

    /// Calls `ndarray::ArrayBase::dim`. Taken on trust: it returns the
    /// lengths of the two axes, first axis first.
    #[verifier::external_body]
    fn shape(&self) -> (shape: (usize, usize))
        ensures
            shape.0 == grid_shape(*self).0,
            shape.1 == grid_shape(*self).1,
    {
        self.cells.dim()
    }

    /// Calls `Index::index` of `ndarray::ArrayBase` with `[x, y]`. Taken on
    /// trust: it returns the cell at that place. The call panics where the
    /// place is outside the array, which is ruled out beforehand.
    #[verifier::external_body]
    fn cell(&self, x: usize, y: usize) -> (colour: Colour)
        requires
            x < grid_shape(*self).0,
            y < grid_shape(*self).1,
        ensures
            colour == grid_cells(*self)[(x as int, y as int)],
    {
        self.cells[[x, y]]
    }

    /// Calls `IndexMut::index_mut` of `ndarray::ArrayBase` with `[x, y]` and
    /// assigns to what it returns. Taken on trust: that cell holds the new
    /// colour afterwards, and every other cell and the shape are as before.
    /// The call panics where the place is outside the array, which is ruled
    /// out beforehand.
    #[verifier::external_body]
    fn put(&mut self, x: usize, y: usize, colour: Colour)
        requires
            x < grid_shape(*old(self)).0,
            y < grid_shape(*old(self)).1,
        ensures
            grid_shape(*final(self)) == grid_shape(*old(self)),
            grid_cells(*final(self)) == grid_cells(*old(self)).insert(
                (x as int, y as int),
                colour,
            ),
    {
        self.cells[[x, y]] = colour;
    }

    /// Tells whether a raster of this width and height can be held.
    pub fn can_hold(width: usize, height: usize) -> (possible: bool)
        ensures
            possible == fits(width as nat, height as nat),
    {
        let limit: u128 = isize::MAX as u128;
        let w: u128 = width as u128;
        let h: u128 = height as u128;
        let weight_w: u128 = if width == 0 { 1 } else { w };
        let weight_h: u128 = if height == 0 { 1 } else { h };
        assert(w * h <= 0xffff_ffff_ffff_ffff * 0xffff_ffff_ffff_ffff) by (nonlinear_arith)
            requires
                0 <= w <= 0xffff_ffff_ffff_ffff,
                0 <= h <= 0xffff_ffff_ffff_ffff,
        ;
        assert(weight_w * weight_h <= 0xffff_ffff_ffff_ffff * 0xffff_ffff_ffff_ffff)
            by (nonlinear_arith)
            requires
                0 <= weight_w <= 0xffff_ffff_ffff_ffff,
                0 <= weight_h <= 0xffff_ffff_ffff_ffff,
        ;
        assert(0xffff_ffff_ffff_ffff * 0xffff_ffff_ffff_ffff
            == 0xffff_ffff_ffff_fffe_0000_0000_0000_0001int);
        let area: u128 = w * h;
        weight_w * weight_h <= limit && area <= limit / 3
    }

    /// A raster of the given width and height with every cell set to
    /// `fill`, or `None` where a raster of that size cannot be held.
    pub fn new(width: usize, height: usize, fill: Colour) -> (res: Option<Raster>)
        ensures
            res.is_some() == fits(width as nat, height as nat),
            res matches Some(raster) ==> {
                &&& raster@.width == width
                &&& raster@.height == height
                &&& forall|x: int, y: int|
                    raster@.contains(x, y) ==> #[trigger] raster@.cells[(x, y)] == fill
            },
    {
        if Raster::can_hold(width, height) {
            Some(Raster::filled(width, height, fill))
        } else {
            None
        }
    }

    /// The number of columns.
    pub fn width(&self) -> (width: usize)
        ensures
            width == self@.width,
    {
        self.shape().0
    }

    /// The number of rows.
    pub fn height(&self) -> (height: usize)
        ensures
            height == self@.height,
    {
        self.shape().1
    }

    /// The colour of the cell at `(x, y)`, or `None` where the raster has no
    /// such cell.
    pub fn get(&self, x: usize, y: usize) -> (colour: Option<Colour>)
        ensures
            colour == if self@.contains(x as int, y as int) {
                Some(self@.at(x as int, y as int))
            } else {
                None
            },
    {
        let (width, height) = self.shape();
        if x < width && y < height {
            Some(self.cell(x, y))
        } else {
            None
        }
    }

    /// Sets the cell at `(x, y)` and tells whether the raster has such a
    /// cell. No other cell changes, and without such a cell none does.
    pub fn set(&mut self, x: usize, y: usize, colour: Colour) -> (done: bool)
        ensures
            done == old(self)@.contains(x as int, y as int),
            final(self)@.width == old(self)@.width,
            final(self)@.height == old(self)@.height,
            final(self)@.cells == if done {
                old(self)@.cells.insert((x as int, y as int), colour)
            } else {
                old(self)@.cells
            },
    {
        let (width, height) = self.shape();
        if x < width && y < height {
            self.put(x, y, colour);
            true
        } else {
            false
        }
    }

    /// Renders a raster: the cell at `(x, y)` holds what `pixel` returns for
    /// `x` and `y`. Every cell is computed once and on its own. `None` where
    /// a raster of that size cannot be held.
    pub fn render<F: Fn(usize, usize) -> Colour>(width: usize, height: usize, pixel: F) -> (res:
        Option<Raster>)
        requires
            forall|x: usize, y: usize| x < width && y < height ==> pixel.requires((x, y)),
        ensures
            res.is_some() == fits(width as nat, height as nat),
            res matches Some(raster) ==> {
                &&& raster@.width == width
                &&& raster@.height == height
                &&& forall|x: usize, y: usize|
                    x < width && y < height ==> pixel.ensures(
                        (x, y),
                        #[trigger] raster@.cells[(x as int, y as int)],
                    )
            },
    {
        if !Raster::can_hold(width, height) {
            return None;
        }
        let mut raster = Raster::filled(width, height, Colour::black());
        let mut x: usize = 0;
        while x < width
            invariant
                x <= width,
                raster@.width == width,
                raster@.height == height,
                forall|i: usize, j: usize| i < width && j < height ==> pixel.requires((i, j)),
                forall|i: usize, j: usize|
                    i < x && j < height ==> pixel.ensures(
                        (i, j),
                        #[trigger] raster@.cells[(i as int, j as int)],
                    ),
            decreases width - x,
        {
            let mut y: usize = 0;
            while y < height
                invariant
                    x < width,
                    y <= height,
                    raster@.width == width,
                    raster@.height == height,
                    forall|i: usize, j: usize| i < width && j < height ==> pixel.requires((i, j)),
                    forall|i: usize, j: usize|
                        i < x && j < height ==> pixel.ensures(
                            (i, j),
                            #[trigger] raster@.cells[(i as int, j as int)],
                        ),
                    forall|j: usize|
                        j < y ==> pixel.ensures((x, j), #[trigger] raster@.cells[(x as int, j as int)]),
                decreases height - y,
            {
                let colour = pixel(x, y);
                let ghost before = raster@;
                raster.put(x, y, colour);
                proof {
                    assert forall|i: usize, j: usize| i < x && j < height implies pixel.ensures(
                        (i, j),
                        #[trigger] raster@.cells[(i as int, j as int)],
                    ) by {
                        assert(raster@.cells[(i as int, j as int)] == before.cells[(i as int, j as int)]);
                    }
                    assert forall|j: usize| j < y + 1 implies pixel.ensures(
                        (x, j),
                        #[trigger] raster@.cells[(x as int, j as int)],
                    ) by {
                        if j < y {
                            assert(raster@.cells[(x as int, j as int)] == before.cells[(x as int, j as int)]);
                        }
                    }
                }
                y += 1;
            }
            x += 1;
        }
        Some(raster)
    }

    /// Writes the raster out as bytes: row after row from the top, each row
    /// from the left, each cell as its red, green and blue.
    pub fn to_rgb_bytes(&self) -> (bytes: Vec<u8>)
        ensures
            bytes@ == self@.rgb_bytes(),
    {
        let (width, height) = self.shape();
        let mut bytes: Vec<u8> = Vec::new();
        let mut y: usize = 0;
        while y < height
            invariant
                y <= height,
                width == self@.width,
                height == self@.height,
                bytes@.len() == 3 * (y * width),
                forall|i: int| 0 <= i < bytes@.len() ==> bytes@[i] == self@.rgb_byte(i),
            decreases height - y,
        {
            let mut x: usize = 0;
            while x < width
                invariant
                    y < height,
                    x <= width,
                    width == self@.width,
                    height == self@.height,
                    bytes@.len() == 3 * (y * width + x),
                    forall|i: int| 0 <= i < bytes@.len() ==> bytes@[i] == self@.rgb_byte(i),
                decreases width - x,
            {
                let colour = self.cell(x, y);
                proof {
                    let cell = y * width + x;
                    lemma_fundamental_div_mod_converse(cell, width as int, y as int, x as int);
                    lemma_fundamental_div_mod_converse(3 * cell, 3, cell, 0);
                    lemma_fundamental_div_mod_converse(3 * cell + 1, 3, cell, 1);
                    lemma_fundamental_div_mod_converse(3 * cell + 2, 3, cell, 2);
                }
                bytes.push(colour.r);
                bytes.push(colour.g);
                bytes.push(colour.b);
                x += 1;
            }
            assert(3 * (y * width + width) == 3 * ((y + 1) * width)) by (nonlinear_arith);
            y += 1;
        }
        proof {
            assert(3 * (height * width) == 3 * self@.width * self@.height) by (nonlinear_arith)
                requires
                    width == self@.width,
                    height == self@.height,
            ;
            assert(bytes@ =~= self@.rgb_bytes());
        }
        bytes
    }
}

} // verus!
