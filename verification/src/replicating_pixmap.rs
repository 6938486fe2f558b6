//! A canvas with mirrors: every write reaches the primary canvas, and each
//! replica takes it only now and then, so that readers of a replica do not
//! compete with the writers of the primary.

use vstd::prelude::*;
use crate::color::Color;
use crate::random::random_draw;
use crate::pixmap::{
    blank_cells, cell_index, inside, lemma_cell_index_in_range, GenericError, Pixmap,
};

verus! {

/// The number of values that a draw can have: a replica is written when its
/// draw is below the threshold, so a threshold of this value writes always.
pub const DRAW_LIMIT: u64 = 0x1_0000_0000;

/// Whether a draw lets a write through to a replica.
pub open spec fn sampled(draw: u32, threshold: u64) -> bool {
    (draw as u64) < threshold
}

/// A primary canvas and its replicas, all of the same dimensions.
pub struct ReplicatingPixmap {
    primary: Pixmap,
    replicas: Vec<Pixmap>,
    threshold: u64,
}

impl ReplicatingPixmap {
    /// Whether every replica has the dimensions of the primary canvas.
    pub closed spec fn wf(&self) -> bool {
        forall|i: int|
            0 <= i < self.replicas@.len() ==> (#[trigger] self.replicas@[i]).width()
                == self.primary.width() && self.replicas@[i].height() == self.primary.height()
                && self.replicas@[i]@.len() == self.primary@.len()
    }

    /// The number of cells in a row.
    pub closed spec fn width(&self) -> nat {
        self.primary.width()
    }

    /// The number of rows.
    pub closed spec fn height(&self) -> nat {
        self.primary.height()
    }

    /// The cells of the primary canvas.
    pub closed spec fn primary(&self) -> Seq<Color> {
        self.primary@
    }

    /// The number of replicas.
    pub closed spec fn replica_count(&self) -> nat {
        self.replicas@.len()
    }

    /// The cells of replica `i`.
    pub closed spec fn replica(&self, i: int) -> Seq<Color> {
        self.replicas@[i]@
    }

    /// The threshold below which a draw lets a write through: out of
    /// `DRAW_LIMIT` draws, so many reach a replica.
    pub closed spec fn threshold(&self) -> u64 {
        self.threshold
    }

    /// Creates a blank primary canvas and `replica_count` blank replicas.
    pub fn new(width: usize, height: usize, replica_count: usize, threshold: u64) -> (res: Result<
        ReplicatingPixmap,
        GenericError,
    >)
        requires
            width * height <= usize::MAX,
        ensures
            (width == 0 || height == 0) ==> res is Err && res->Err_0 == GenericError::InvalidSize(
                width,
                height,
            ),
            (width >= 1 && height >= 1) ==> res is Ok && res->Ok_0.wf() && res->Ok_0.width()
                == width && res->Ok_0.height() == height && res->Ok_0.threshold() == threshold
                && res->Ok_0.replica_count() == replica_count && res->Ok_0.primary()
                == blank_cells((width * height) as nat) && forall|i: int|
                0 <= i < replica_count ==> #[trigger] res->Ok_0.replica(i) == blank_cells(
                    (width * height) as nat,
                ),
    {
        let primary: Pixmap = match Pixmap::new(width, height) {
            Err(e) => {
                return Err(e);
            },
            Ok(primary) => primary,
        };
        let mut replicas: Vec<Pixmap> = Vec::new();
        let mut i: usize = 0;
        while i < replica_count
            invariant
                i <= replica_count,
                width >= 1,
                height >= 1,
                width * height <= usize::MAX,
                replicas@.len() == i,
                forall|k: int|
                    0 <= k < i ==> (#[trigger] replicas@[k]).width() == width
                        && replicas@[k].height() == height && replicas@[k]@ == blank_cells(
                        (width * height) as nat,
                    ),
            decreases replica_count - i,
        {
            match Pixmap::new(width, height) {
                Err(e) => {
                    return Err(e);
                },
                Ok(replica) => {
                    replicas.push(replica);
                },
            }
            i = i + 1;
        }
        Ok(ReplicatingPixmap { primary, replicas, threshold })
    }

    /// The dimensions (width, height).
    pub fn get_size(&self) -> (size: (usize, usize))
        ensures
            size.0 == self.width(),
            size.1 == self.height(),
            size.0 >= 1,
            size.1 >= 1,
            self.primary().len() == size.0 * size.1,
    {
        self.primary.get_size()
    }

    /// Reads the color of cell (x, y) from the primary canvas.
    pub fn get_pixel(&self, x: usize, y: usize) -> (res: Result<Color, GenericError>)
        ensures
            inside(self.width(), self.height(), x as nat, y as nat) ==> res == Ok::<
                Color,
                GenericError,
            >(self.primary()[cell_index(self.width(), x as nat, y as nat) as int]),
            !inside(self.width(), self.height(), x as nat, y as nat) ==> res == Err::<
                Color,
                GenericError,
            >(
                GenericError::InvalidCoordinates {
                    target: (x, y),
                    size: (self.width() as usize, self.height() as usize),
                },
            ),
    {
        self.primary.get_pixel(x, y)
    }

    /// A copy of all cells of the primary canvas.
    pub fn get_raw_data(&self) -> (data: Vec<Color>)
        ensures
            data@ == self.primary(),
    {
        self.primary.get_raw_data()
    }

    /// A copy of all cells of replica `i`.
    pub fn get_replica_data(&self, i: usize) -> (data: Vec<Color>)
        requires
            i < self.replica_count(),
        ensures
            data@ == self.replica(i as int),
    {
        self.replicas[i].get_raw_data()
    }

    /// Whether the replicas are those of `before` after a write of `color`
    /// at position `index` with the given draws, one for each replica: a
    /// replica whose draw is below the threshold took the write, every other
    /// replica is as it was.
    pub open spec fn follows_draws(
        &self,
        before: &ReplicatingPixmap,
        index: int,
        color: Color,
        draws: Seq<u32>,
    ) -> bool {
        &&& draws.len() == before.replica_count()
        &&& forall|i: int|
            0 <= i < draws.len() ==> #[trigger] self.replica(i) == if sampled(
                draws[i],
                before.threshold(),
            ) {
                before.replica(i).update(index, color)
            } else {
                before.replica(i)
            }
    }

    /// Writes `color` to cell (x, y) of the primary canvas, and of every
    /// replica whose draw is below the threshold. Outside the canvas nothing
    /// is written anywhere.
    pub fn set_pixel_sampled(&mut self, x: usize, y: usize, color: Color, draws: &[u32]) -> (res:
        Result<(), GenericError>)
        requires
            old(self).wf(),
            draws@.len() == old(self).replica_count(),
        ensures
            final(self).wf(),
            final(self).width() == old(self).width(),
            final(self).height() == old(self).height(),
            final(self).threshold() == old(self).threshold(),
            final(self).replica_count() == old(self).replica_count(),
            inside(old(self).width(), old(self).height(), x as nat, y as nat) ==> res is Ok
                && final(self).primary() == old(self).primary().update(
                cell_index(old(self).width(), x as nat, y as nat) as int,
                color,
            ) && forall|i: int|
                0 <= i < old(self).replica_count() ==> #[trigger] final(self).replica(i) == if sampled(
                    draws@[i],
                    old(self).threshold(),
                ) {
                    old(self).replica(i).update(
                        cell_index(old(self).width(), x as nat, y as nat) as int,
                        color,
                    )
                } else {
                    old(self).replica(i)
                },
            !inside(old(self).width(), old(self).height(), x as nat, y as nat) ==> res == Err::<
                (),
                GenericError,
            >(
                GenericError::InvalidCoordinates {
                    target: (x, y),
                    size: (old(self).width() as usize, old(self).height() as usize),
                },
            ) && final(self).primary() == old(self).primary() && forall|i: int|
                0 <= i < old(self).replica_count() ==> #[trigger] final(self).replica(i) == old(
                    self,
                ).replica(i),
    {
        let size: (usize, usize) = self.primary.get_size();
        match self.primary.set_pixel(x, y, color) {
            Err(e) => {
                return Err(e);
            },
            Ok(()) => {},
        }
        let ghost index = cell_index(old(self).width(), x as nat, y as nat) as int;
        proof {
            lemma_cell_index_in_range(old(self).width(), old(self).height(), x as nat, y as nat);
        }
        let mut i: usize = 0;
        while i < self.replicas.len()
            invariant
                i <= self.replicas@.len(),
                self.replicas@.len() == old(self).replicas@.len(),
                draws@.len() == self.replicas@.len(),
                self.threshold == old(self).threshold,
                self.primary.width() == old(self).primary.width(),
                self.primary.height() == old(self).primary.height(),
                self.primary@ == old(self).primary@.update(index, color),
                inside(old(self).width(), old(self).height(), x as nat, y as nat),
                index == cell_index(old(self).width(), x as nat, y as nat),
                0 <= index < old(self).primary@.len(),
                self.primary@.len() == old(self).primary@.len(),
                old(self).wf(),
                forall|k: int|
                    0 <= k < self.replicas@.len() ==> (#[trigger] self.replicas@[k]).width()
                        == old(self).primary.width() && self.replicas@[k].height() == old(
                        self,
                    ).primary.height() && self.replicas@[k]@.len() == old(self).primary@.len(),
                forall|k: int|
                    0 <= k < i ==> (#[trigger] self.replicas@[k])@ == if sampled(
                        draws@[k],
                        self.threshold,
                    ) {
                        old(self).replicas@[k]@.update(index, color)
                    } else {
                        old(self).replicas@[k]@
                    },
                forall|k: int|
                    i <= k < self.replicas@.len() ==> (#[trigger] self.replicas@[k])@ == old(
                        self,
                    ).replicas@[k]@,
            decreases self.replicas@.len() - i,
        {
            if (draws[i] as u64) < self.threshold {
                let _ = self.replicas[i].set_pixel(x, y, color);
            }
            i = i + 1;
        }
        Ok(())
    }

    /// Writes `color` to cell (x, y) of the primary canvas, and of each
    /// replica for which a random draw falls below the threshold. The draws
    /// are left to chance, one for each replica; what they do is not: with a
    /// threshold of `DRAW_LIMIT` or more every replica takes the write, and
    /// with a threshold of zero none does.
    pub fn set_pixel(&mut self, x: usize, y: usize, color: Color) -> (res: Result<
        (),
        GenericError,
    >)
        requires
            old(self).wf(),
        ensures
            final(self).wf(),
            final(self).width() == old(self).width(),
            final(self).height() == old(self).height(),
            final(self).threshold() == old(self).threshold(),
            final(self).replica_count() == old(self).replica_count(),
            inside(old(self).width(), old(self).height(), x as nat, y as nat) ==> res is Ok
                && final(self).primary() == old(self).primary().update(
                cell_index(old(self).width(), x as nat, y as nat) as int,
                color,
            ) && exists|draws: Seq<u32>|
                #[trigger] final(self).follows_draws(
                    old(self),
                    cell_index(old(self).width(), x as nat, y as nat) as int,
                    color,
                    draws,
                ),
            inside(old(self).width(), old(self).height(), x as nat, y as nat) && old(
                self,
            ).threshold() >= DRAW_LIMIT ==> forall|i: int|
                0 <= i < old(self).replica_count() ==> #[trigger] final(self).replica(i) == old(
                    self,
                ).replica(i).update(
                    cell_index(old(self).width(), x as nat, y as nat) as int,
                    color,
                ),
            inside(old(self).width(), old(self).height(), x as nat, y as nat) && old(
                self,
            ).threshold() == 0 ==> forall|i: int|
                0 <= i < old(self).replica_count() ==> #[trigger] final(self).replica(i) == old(
                    self,
                ).replica(i),
            !inside(old(self).width(), old(self).height(), x as nat, y as nat) ==> res == Err::<
                (),
                GenericError,
            >(
                GenericError::InvalidCoordinates {
                    target: (x, y),
                    size: (old(self).width() as usize, old(self).height() as usize),
                },
            ) && final(self).primary() == old(self).primary() && forall|i: int|
                0 <= i < old(self).replica_count() ==> #[trigger] final(self).replica(i) == old(
                    self,
                ).replica(i),
    {
        let mut draws: Vec<u32> = Vec::new();
        let mut i: usize = 0;
        while i < self.replicas.len()
            invariant
                i <= self.replicas@.len(),
                draws@.len() == i,
            decreases self.replicas@.len() - i,
        {
            draws.push(random_draw());
            i = i + 1;
        }
        let res = self.set_pixel_sampled(x, y, color, draws.as_slice());
        proof {
            if inside(old(self).width(), old(self).height(), x as nat, y as nat) {
                assert(self.follows_draws(
                    old(self),
                    cell_index(old(self).width(), x as nat, y as nat) as int,
                    color,
                    draws@,
                ));
            }
        }
        res
    }
}

/// What the threshold means at its extremes: at `DRAW_LIMIT` or above every
/// draw lets the write through, at zero none does.
pub proof fn law_threshold_extremes(draw: u32, threshold: u64)
    ensures
        threshold >= DRAW_LIMIT ==> sampled(draw, threshold),
        threshold == 0 ==> !sampled(draw, threshold),
{
}

/// A replica either takes a write or stays as it was, whatever the draws.
pub proof fn law_replica_written_or_kept(
    after: ReplicatingPixmap,
    before: ReplicatingPixmap,
    index: int,
    color: Color,
    draws: Seq<u32>,
    i: int,
)
    requires
        after.follows_draws(&before, index, color, draws),
        0 <= i < before.replica_count(),
    ensures
        after.replica(i) == before.replica(i).update(index, color) || after.replica(i)
            == before.replica(i),
{
}

} // verus!
