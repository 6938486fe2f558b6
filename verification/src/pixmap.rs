//! The canvas: a fixed grid of color cells in row-major order.

use vstd::prelude::*;
use crate::color::{law_word_round_trip, Color};

verus! {

/// Why a canvas operation was refused.
#[derive(Clone, Copy, Debug, PartialEq, Eq)]
pub enum GenericError {
    /// The coordinates `target` lie outside a canvas of dimensions `size`.
    InvalidCoordinates { target: (usize, usize), size: (usize, usize) },
    /// A canvas cannot have these dimensions.
    InvalidSize(usize, usize),
}

/// The position of cell (x, y) in a row-major buffer of rows `width` cells long.
pub open spec fn cell_index(width: nat, x: nat, y: nat) -> nat {
    y * width + x
}

/// Whether (x, y) names a cell of a canvas of the given dimensions.
pub open spec fn inside(width: nat, height: nat, x: nat, y: nat) -> bool {
    x < width && y < height
}

/// The cells after a bulk write of `data`: the leading cells take the data in
/// order, as far as it reaches; cells beyond it keep their value, and data
/// beyond the last cell is dropped.
pub open spec fn raw_overwrite(cells: Seq<Color>, data: Seq<Color>) -> Seq<Color> {
    Seq::new(cells.len(), |i: int| if i < data.len() { data[i] } else { cells[i] })
}

/// The cells of a fresh canvas: all black.
pub open spec fn blank_cells(count: nat) -> Seq<Color> {
    Seq::new(count, |i: int| Color(0, 0, 0))
}

/// Every cell inside the canvas has a position inside the buffer.
pub proof fn lemma_cell_index_in_range(width: nat, height: nat, x: nat, y: nat)
    requires
        inside(width, height, x, y),
    ensures
        cell_index(width, x, y) < width * height,
{
    assert(y * width + x < width * height) by (nonlinear_arith)
        requires
            x < width,
            y < height,
    ;
}

/// A fixed-size canvas of `width` by `height` cells, each holding one color
/// packed into a machine word.
#[derive(Debug)]
pub struct Pixmap {
    width: usize,
    height: usize,
    cells: Vec<u32>,
}

impl View for Pixmap {
    type V = Seq<Color>;

    /// The colors of all cells in row-major order.
    closed spec fn view(&self) -> Seq<Color> {
        Seq::new(self.cells@.len(), |i: int| Color::of_word(self.cells@[i]))
    }
}

impl Pixmap {
    #[verifier::type_invariant]
    spec fn well_formed(&self) -> bool {
        &&& self.width >= 1
        &&& self.height >= 1
        &&& self.cells@.len() == self.width * self.height
    }

    /// The number of cells in a row.
    pub closed spec fn width(&self) -> nat {
        self.width as nat
    }

    /// The number of rows.
    pub closed spec fn height(&self) -> nat {
        self.height as nat
    }

    /// Creates a canvas of the given dimensions with every cell black.
    /// Fails when a dimension is zero.
    pub fn new(width: usize, height: usize) -> (res: Result<Pixmap, GenericError>)
        requires
            width * height <= usize::MAX,
        ensures
            (width == 0 || height == 0) ==> res == Err::<Pixmap, GenericError>(
                GenericError::InvalidSize(width, height),
            ),
            (width >= 1 && height >= 1) ==> res is Ok && res->Ok_0.width() == width
                && res->Ok_0.height() == height && res->Ok_0@ == blank_cells(
                (width * height) as nat,
            ),
    {
        if width == 0 || height == 0 {
            return Err(GenericError::InvalidSize(width, height));
        }
        let count: usize = width * height;
        let cells: Vec<u32> = vec![0u32; count];
        let pixmap = Pixmap { width, height, cells };
        assert(pixmap@ =~= blank_cells((width * height) as nat));
        Ok(pixmap)
    }

    /// The dimensions (width, height). They never change.
    pub fn get_size(&self) -> (size: (usize, usize))
        ensures
            size.0 == self.width(),
            size.1 == self.height(),
            size.0 >= 1,
            size.1 >= 1,
            self@.len() == size.0 * size.1,
    {
        proof {
            use_type_invariant(self);
        }
        (self.width, self.height)
    }

    /// Reads the color of cell (x, y).
    pub fn get_pixel(&self, x: usize, y: usize) -> (res: Result<Color, GenericError>)
        ensures
            inside(self.width(), self.height(), x as nat, y as nat) ==> res == Ok::<
                Color,
                GenericError,
            >(self@[cell_index(self.width(), x as nat, y as nat) as int]),
            !inside(self.width(), self.height(), x as nat, y as nat) ==> res == Err::<
                Color,
                GenericError,
            >(
                GenericError::InvalidCoordinates {
                    target: (x, y),
                    size: (self.width() as usize, self.height() as usize),
                },
            ),
    {
        proof {
            use_type_invariant(self);
        }
        match verify_coordinates_are_inside(self, x, y) {
            Err(e) => Err(e),
            Ok(()) => {
                proof {
                    lemma_cell_index_in_range(self.width(), self.height(), x as nat, y as nat);
                    assert(self.width() * self.height() == self.cells@.len());
                }
                let count: usize = self.cells.len();
                assert(cell_index(self.width(), x as nat, y as nat) < count);
                let index: usize = pixel_coordinates_2_index(self, x, y);
                Ok(Color::from_word(self.cells[index]))
            },
        }
    }

    /// Writes `color` to cell (x, y) and leaves every other cell as it was.
    /// Outside the canvas nothing is written.
    pub fn set_pixel(&mut self, x: usize, y: usize, color: Color) -> (res: Result<
        (),
        GenericError,
    >)
        ensures
            final(self).width() == old(self).width(),
            final(self).height() == old(self).height(),
            inside(old(self).width(), old(self).height(), x as nat, y as nat) ==> res is Ok
                && final(self)@ == old(self)@.update(
                cell_index(old(self).width(), x as nat, y as nat) as int,
                color,
            ),
            !inside(old(self).width(), old(self).height(), x as nat, y as nat) ==> final(self)@
                == old(self)@ && res == Err::<(), GenericError>(
                GenericError::InvalidCoordinates {
                    target: (x, y),
                    size: (old(self).width() as usize, old(self).height() as usize),
                },
            ),
    {
        proof {
            use_type_invariant(&*self);
        }
        match verify_coordinates_are_inside(self, x, y) {
            Err(e) => Err(e),
            Ok(()) => {
                proof {
                    lemma_cell_index_in_range(self.width(), self.height(), x as nat, y as nat);
                    assert(self.width() * self.height() == self.cells@.len());
                    law_word_round_trip(color);
                }
                let count: usize = self.cells.len();
                assert(cell_index(self.width(), x as nat, y as nat) < count);
                let index: usize = pixel_coordinates_2_index(self, x, y);
                self.cells[index] = color.to_word();
                assert(self@ =~= old(self)@.update(index as int, color));
                Ok(())
            },
        }
    }

    /// A copy of all cells in row-major order.
    pub fn get_raw_data(&self) -> (data: Vec<Color>)
        ensures
            data@ == self@,
            data@.len() == self.width() * self.height(),
    {
        proof {
            use_type_invariant(self);
        }
        let mut data: Vec<Color> = Vec::new();
        let mut i: usize = 0;
        while i < self.cells.len()
            invariant
                i <= self.cells@.len(),
                data@.len() == i,
                forall|j: int| 0 <= j < i ==> data@[j] == Color::of_word(self.cells@[j]),
            decreases self.cells@.len() - i,
        {
            data.push(Color::from_word(self.cells[i]));
            i = i + 1;
        }
        assert(data@ =~= self@);
        data
    }

    /// Writes `data` over the leading cells, in order. Cells that the data does
    /// not reach keep their value; data beyond the last cell is ignored.
    pub fn put_raw_data(&mut self, data: &[Color])
        ensures
            final(self).width() == old(self).width(),
            final(self).height() == old(self).height(),
            final(self)@ == raw_overwrite(old(self)@, data@),
    {
        proof {
            use_type_invariant(&*self);
        }
        let count: usize = if data.len() < self.cells.len() {
            data.len()
        } else {
            self.cells.len()
        };
        let mut i: usize = 0;
        while i < count
            invariant
                i <= count,
                count <= data@.len(),
                count <= self.cells@.len(),
                self.width == old(self).width,
                self.height == old(self).height,
                self.cells@.len() == old(self).cells@.len(),
                self.cells@.len() == self.width * self.height,
                self.width >= 1,
                self.height >= 1,
                forall|j: int| 0 <= j < i ==> #[trigger] self.cells@[j] == data@[j].word(),
                forall|j: int|
                    i <= j < self.cells@.len() ==> #[trigger] self.cells@[j] == old(self).cells@[j],
            decreases count - i,
        {
            let color: Color = data[i];
            self.cells[i] = color.to_word();
            i = i + 1;
        }
        proof {
            assert forall|j: int| 0 <= j < self@.len() implies self@[j] == raw_overwrite(
                old(self)@,
                data@,
            )[j] by {
                if j < count {
                    law_word_round_trip(data@[j]);
                }
            }
            assert(self@ =~= raw_overwrite(old(self)@, data@));
        }
    }
}

/// The position of cell (x, y) in the canvas's row-major buffer.
pub fn pixel_coordinates_2_index(pixmap: &Pixmap, x: usize, y: usize) -> (index: usize)
    requires
        cell_index(pixmap.width(), x as nat, y as nat) <= usize::MAX,
    ensures
        index == cell_index(pixmap.width(), x as nat, y as nat),
{
    y * pixmap.get_size().0 + x
}

/// Accepts coordinates inside the canvas and rejects all others, naming the
/// coordinates and the canvas's dimensions.
pub fn verify_coordinates_are_inside(pixmap: &Pixmap, x: usize, y: usize) -> (res: Result<
    (),
    GenericError,
>)
    ensures
        inside(pixmap.width(), pixmap.height(), x as nat, y as nat) ==> res is Ok,
        !inside(pixmap.width(), pixmap.height(), x as nat, y as nat) ==> res == Err::<
            (),
            GenericError,
        >(
            GenericError::InvalidCoordinates {
                target: (x, y),
                size: (pixmap.width() as usize, pixmap.height() as usize),
            },
        ),
{
    let size: (usize, usize) = pixmap.get_size();
    if !(x < size.0 && y < size.1) {
        Err(GenericError::InvalidCoordinates { target: (x, y), size })
    } else {
        Ok(())
    }
}

/// A cell that was written reads back as the color written.
pub proof fn law_set_then_get(cells: Seq<Color>, width: nat, height: nat, x: nat, y: nat, color: Color)
    requires
        cells.len() == width * height,
        inside(width, height, x, y),
    ensures
        cells.update(cell_index(width, x, y) as int, color)[cell_index(width, x, y) as int]
            == color,
{
    lemma_cell_index_in_range(width, height, x, y);
}

/// Distinct cells of the canvas have distinct positions, so a write to one
/// cell is not seen at any other.
pub proof fn law_set_leaves_other_cells(
    cells: Seq<Color>,
    width: nat,
    height: nat,
    x: nat,
    y: nat,
    color: Color,
    x2: nat,
    y2: nat,
)
    requires
        cells.len() == width * height,
        inside(width, height, x, y),
        inside(width, height, x2, y2),
        (x, y) != (x2, y2),
    ensures
        cell_index(width, x, y) != cell_index(width, x2, y2),
        cells.update(cell_index(width, x, y) as int, color)[cell_index(width, x2, y2) as int]
            == cells[cell_index(width, x2, y2) as int],
{
    lemma_cell_index_in_range(width, height, x, y);
    lemma_cell_index_in_range(width, height, x2, y2);
    assert(y * width + x != y2 * width + x2) by (nonlinear_arith)
        requires
            x < width,
            x2 < width,
            x != x2 || y != y2,
    ;
}

/// A bulk write of exactly as many colors as the canvas has cells replaces
/// the whole canvas: a bulk read then returns the data written.
pub proof fn law_put_raw_full(cells: Seq<Color>, data: Seq<Color>)
    requires
        data.len() == cells.len(),
    ensures
        raw_overwrite(cells, data) == data,
{
    assert(raw_overwrite(cells, data) =~= data);
}

/// A bulk write of fewer colors than the canvas has cells replaces the
/// leading cells and leaves the rest: on a blank canvas the rest stays black.
pub proof fn law_put_raw_short(cells: Seq<Color>, data: Seq<Color>)
    requires
        data.len() < cells.len(),
    ensures
        raw_overwrite(cells, data).len() == cells.len(),
        raw_overwrite(cells, data).take(data.len() as int) == data,
        raw_overwrite(cells, data).skip(data.len() as int) == cells.skip(data.len() as int),
        cells == blank_cells(cells.len()) ==> forall|i: int|
            data.len() <= i < cells.len() ==> #[trigger] raw_overwrite(cells, data)[i] == Color(
                0,
                0,
                0,
            ),
{
    assert(raw_overwrite(cells, data).take(data.len() as int) =~= data);
    assert(raw_overwrite(cells, data).skip(data.len() as int) =~= cells.skip(data.len() as int));
}

/// A bulk write of more colors than the canvas has cells writes the leading
/// ones and drops the rest.
pub proof fn law_put_raw_long(cells: Seq<Color>, data: Seq<Color>)
    requires
        data.len() > cells.len(),
    ensures
        raw_overwrite(cells, data) == data.take(cells.len() as int),
{
    assert(raw_overwrite(cells, data) =~= data.take(cells.len() as int));
}

} // verus!
