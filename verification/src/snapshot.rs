//! The snapshot file: the dimensions of the canvas as two little-endian
//! 64-bit numbers, then every cell in row-major order as a little-endian
//! 32-bit word.

use vstd::prelude::*;
use vstd::bytes::{
    lemma_auto_spec_u32_to_from_le_bytes, lemma_auto_spec_u64_to_from_le_bytes,
    spec_u32_from_le_bytes, spec_u32_to_le_bytes, spec_u64_from_le_bytes, spec_u64_to_le_bytes,
    u32_from_le_bytes, u32_to_le_bytes, u64_from_le_bytes, u64_to_le_bytes,
};
use vstd::slice::slice_subrange;
use crate::color::{law_word_round_trip, Color};
use crate::pixmap::{blank_cells, Pixmap};

verus! {

/// The number of bytes before the first cell.
pub const HEADER_LENGTH: usize = 16;

/// Why the contents of a file are no snapshot, or not the one asked for.
#[derive(Clone, Copy, Debug, PartialEq, Eq)]
pub enum SnapshotError {
    /// The file ends before its header does.
    Truncated,
    /// The header names a canvas without cells.
    InvalidSize(u64, u64),
    /// The file does not hold as many cells as its header names.
    LengthMismatch,
    /// The file holds a canvas of other dimensions than were asked for.
    SizeMismatch { stored: (usize, usize), requested: (usize, usize) },
}

/// A canvas as a snapshot holds it.
pub struct SnapshotView {
    pub width: nat,
    pub height: nat,
    pub cells: Seq<Color>,
}

/// The bytes of the cells: four for each, the packed word in little-endian
/// order.
pub open spec fn cell_bytes(cells: Seq<Color>) -> Seq<u8> {
    Seq::new(4 * cells.len(), |j: int| spec_u32_to_le_bytes(cells[j / 4].word())[j % 4])
}

/// The contents of the snapshot file of a canvas.
pub open spec fn snapshot_bytes(width: nat, height: nat, cells: Seq<Color>) -> Seq<u8> {
    spec_u64_to_le_bytes(width as u64) + spec_u64_to_le_bytes(height as u64) + cell_bytes(cells)
}

/// The width that a file's header names.
pub open spec fn stored_width(bytes: Seq<u8>) -> u64 {
    spec_u64_from_le_bytes(bytes.subrange(0, 8))
}

/// The height that a file's header names.
pub open spec fn stored_height(bytes: Seq<u8>) -> u64 {
    spec_u64_from_le_bytes(bytes.subrange(8, 16))
}

/// The cell at position `i` of a file.
pub open spec fn stored_cell(bytes: Seq<u8>, i: int) -> Color {
    Color::of_word(spec_u32_from_le_bytes(bytes.subrange(16 + 4 * i, 20 + 4 * i)))
}

/// The canvas that the contents of a file hold.
pub open spec fn snapshot_of(bytes: Seq<u8>) -> Result<SnapshotView, SnapshotError> {
    if bytes.len() < 16 {
        Err(SnapshotError::Truncated)
    } else if stored_width(bytes) == 0 || stored_height(bytes) == 0 {
        Err(SnapshotError::InvalidSize(stored_width(bytes), stored_height(bytes)))
    } else if bytes.len() != 16 + 4 * (stored_width(bytes) * stored_height(bytes)) {
        Err(SnapshotError::LengthMismatch)
    } else {
        Ok(
            SnapshotView {
                width: stored_width(bytes) as nat,
                height: stored_height(bytes) as nat,
                cells: Seq::new(
                    (stored_width(bytes) * stored_height(bytes)) as nat,
                    |i: int| stored_cell(bytes, i),
                ),
            },
        )
    }
}

/// Writes the snapshot of a canvas.
pub fn encode_snapshot(pixmap: &Pixmap) -> (out: Vec<u8>)
    ensures
        out@ == snapshot_bytes(pixmap.width(), pixmap.height(), pixmap@),
{
    let size: (usize, usize) = pixmap.get_size();
    let cells: Vec<Color> = pixmap.get_raw_data();
    let mut out: Vec<u8> = u64_to_le_bytes(size.0 as u64);
    let mut height: Vec<u8> = u64_to_le_bytes(size.1 as u64);
    out.append(&mut height);
    let ghost header = out@;
    proof {
        lemma_auto_spec_u64_to_from_le_bytes();
        lemma_auto_spec_u32_to_from_le_bytes();
    }
    let mut i: usize = 0;
    while i < cells.len()
        invariant
            i <= cells@.len(),
            header.len() == 16,
            out@.len() == 16 + 4 * i,
            out@.subrange(0, 16) == header,
            forall|k: int|
                16 <= k < 16 + 4 * i ==> #[trigger] out@[k] == spec_u32_to_le_bytes(
                    cells@[(k - 16) / 4].word(),
                )[(k - 16) % 4],
            forall|x: u32| #[trigger] spec_u32_to_le_bytes(x).len() == 4,
        decreases cells@.len() - i,
    {
        let ghost before = out@;
        let mut word: Vec<u8> = u32_to_le_bytes(cells[i].to_word());
        out.append(&mut word);
        proof {
            assert(out@.subrange(0, 16) =~= before.subrange(0, 16));
            assert forall|k: int| 16 <= k < 16 + 4 * (i + 1) implies #[trigger] out@[k]
                == spec_u32_to_le_bytes(cells@[(k - 16) / 4].word())[(k - 16) % 4] by {
                if k < 16 + 4 * i {
                    assert(out@[k] == before[k]);
                } else {
                    assert((k - 16) / 4 == i);
                }
            }
        }
        i = i + 1;
    }
    proof {
        let expected = snapshot_bytes(pixmap.width(), pixmap.height(), pixmap@);
        assert(header =~= spec_u64_to_le_bytes(size.0 as u64) + spec_u64_to_le_bytes(
            size.1 as u64,
        ));
        assert forall|k: int| 0 <= k < out@.len() implies out@[k] == expected[k] by {
            if k < 16 {
                assert(out@[k] == out@.subrange(0, 16)[k]);
            } else {
                assert(expected[k] == cell_bytes(pixmap@)[k - 16]);
            }
        }
        assert(out@ =~= expected);
    }
    out
}

/// Reads a canvas from the contents of a snapshot file.
pub fn decode_snapshot(bytes: &[u8]) -> (res: Result<Pixmap, SnapshotError>)
    ensures
        match snapshot_of(bytes@) {
            Ok(snapshot) => res is Ok && res->Ok_0.width() == snapshot.width
                && res->Ok_0.height() == snapshot.height && res->Ok_0@ == snapshot.cells,
            Err(e) => res is Err && res->Err_0 == e,
        },
{
    if bytes.len() < HEADER_LENGTH {
        return Err(SnapshotError::Truncated);
    }
    let stored_w: u64 = u64_from_le_bytes(slice_subrange(bytes, 0, 8));
    let stored_h: u64 = u64_from_le_bytes(slice_subrange(bytes, 8, 16));
    if stored_w == 0 || stored_h == 0 {
        return Err(SnapshotError::InvalidSize(stored_w, stored_h));
    }
    let body: u64 = (bytes.len() - HEADER_LENGTH) as u64;
    let count: u64 = match stored_w.checked_mul(stored_h) {
        None => {
            return Err(SnapshotError::LengthMismatch);
        },
        Some(count) => count,
    };
    if body % 4 != 0 || body / 4 != count {
        return Err(SnapshotError::LengthMismatch);
    }
    assert(stored_w <= count && stored_h <= count) by (nonlinear_arith)
        requires
            stored_w >= 1,
            stored_h >= 1,
            count == stored_w * stored_h,
    ;
    let width: usize = stored_w as usize;
    let height: usize = stored_h as usize;
    let total: usize = count as usize;
    let mut cells: Vec<Color> = Vec::new();
    let mut i: usize = 0;
    while i < total
        invariant
            i <= total,
            bytes@.len() == 16 + 4 * total,
            bytes@.len() <= usize::MAX,
            cells@.len() == i,
            forall|k: int| 0 <= k < i ==> cells@[k] == stored_cell(bytes@, k),
        decreases total - i,
    {
        let word: u32 = u32_from_le_bytes(slice_subrange(bytes, 16 + 4 * i, 20 + 4 * i));
        cells.push(Color::from_word(word));
        i = i + 1;
    }
    match Pixmap::new(width, height) {
        Err(_) => Err(SnapshotError::LengthMismatch),
        Ok(mut pixmap) => {
            pixmap.put_raw_data(cells.as_slice());
            assert(pixmap@ =~= cells@);
            assert(cells@ =~= snapshot_of(bytes@)->Ok_0.cells);
            Ok(pixmap)
        },
    }
}

/// Opens the canvas that a file backs. An empty file stands for a fresh
/// canvas of the dimensions asked for. Any other file has to hold a canvas
/// of exactly these dimensions.
pub fn open_file_backed(contents: &[u8], width: usize, height: usize) -> (res: Result<
    Pixmap,
    SnapshotError,
>)
    requires
        width * height <= usize::MAX,
    ensures
        contents@.len() == 0 && (width == 0 || height == 0) ==> res is Err && res->Err_0
            == SnapshotError::InvalidSize(width as u64, height as u64),
        contents@.len() == 0 && width >= 1 && height >= 1 ==> res is Ok && res->Ok_0.width()
            == width && res->Ok_0.height() == height && res->Ok_0@ == blank_cells(
            (width * height) as nat,
        ),
        contents@.len() > 0 ==> match snapshot_of(contents@) {
            Err(e) => res is Err && res->Err_0 == e,
            Ok(snapshot) => if snapshot.width == width && snapshot.height == height {
                res is Ok && res->Ok_0.width() == width && res->Ok_0.height() == height
                    && res->Ok_0@ == snapshot.cells
            } else {
                res is Err && res->Err_0 == SnapshotError::SizeMismatch {
                    stored: (snapshot.width as usize, snapshot.height as usize),
                    requested: (width, height),
                }
            },
        },
{
    if contents.len() == 0 {
        return match Pixmap::new(width, height) {
            Ok(pixmap) => Ok(pixmap),
            Err(_) => Err(SnapshotError::InvalidSize(width as u64, height as u64)),
        };
    }
    match decode_snapshot(contents) {
        Err(e) => Err(e),
        Ok(pixmap) => {
            let stored: (usize, usize) = pixmap.get_size();
            if stored.0 == width && stored.1 == height {
                Ok(pixmap)
            } else {
                Err(SnapshotError::SizeMismatch { stored, requested: (width, height) })
            }
        },
    }
}

/// A snapshot that was written is read back as the canvas it was written
/// from: the same dimensions and the same color in every cell.
pub proof fn law_snapshot_round_trip(width: nat, height: nat, cells: Seq<Color>)
    requires
        width >= 1,
        height >= 1,
        width <= u64::MAX,
        height <= u64::MAX,
        cells.len() == width * height,
    ensures
        snapshot_of(snapshot_bytes(width, height, cells)) == Ok::<SnapshotView, SnapshotError>(
            SnapshotView { width, height, cells },
        ),
{
    lemma_auto_spec_u64_to_from_le_bytes();
    lemma_auto_spec_u32_to_from_le_bytes();
    let w = spec_u64_to_le_bytes(width as u64);
    let h = spec_u64_to_le_bytes(height as u64);
    let bytes = snapshot_bytes(width, height, cells);
    assert(bytes.subrange(0, 8) =~= w);
    assert(bytes.subrange(8, 16) =~= h);
    assert(stored_width(bytes) == width);
    assert(stored_height(bytes) == height);
    let decoded = Seq::new((width * height) as nat, |i: int| stored_cell(bytes, i));
    assert forall|i: int| 0 <= i < cells.len() implies decoded[i] == cells[i] by {
        let word = cells[i].word();
        let four = spec_u32_to_le_bytes(word);
        assert(bytes.subrange(16 + 4 * i, 20 + 4 * i) =~= four) by {
            assert forall|j: int| 0 <= j < 4 implies bytes[16 + 4 * i + j] == four[j] by {
                assert((4 * i + j) / 4 == i && (4 * i + j) % 4 == j);
                assert(bytes[16 + 4 * i + j] == cell_bytes(cells)[4 * i + j]);
            }
        }
        law_word_round_trip(cells[i]);
    }
    assert(decoded =~= cells);
}

} // verus!
