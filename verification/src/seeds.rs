//! The points that every render starts from.
//!
//! The working set is a grid of ten by ten points, a tenth apart, that
//! begins at the origin, together with the mirror image of each point but
//! the origin itself. The points are given in tenths, as integers; the
//! caller turns them into coordinates.

use vstd::prelude::*;

verus! {

/// How many points the working set holds: the hundred cells of the seed grid
/// and the mirror image of each but the origin.
pub const SEED_COUNT: usize = 199;

/// Cells along one side of the seed grid.
pub const GRID_SIDE: u8 = 10;

/// A starting point of the chaos game, in tenths: the point
/// (`x_tenths` / 10, `y_tenths` / 10), or its mirror image through the
/// origin where `mirrored` is set.
#[derive(Clone, Copy, Debug, PartialEq, Eq)]
pub struct Seed {
    pub x_tenths: u8,
    pub y_tenths: u8,
    pub mirrored: bool,
}

/// The seed at place `k` of the working set. The grid's cells come column by
/// column; each cell but the origin is followed by its mirror image.
pub open spec fn seed_at(k: int) -> Seed {
    Seed {
        x_tenths: (((k + 1) / 2) / 10) as u8,
        y_tenths: (((k + 1) / 2) % 10) as u8,
        mirrored: k > 0 && k % 2 == 0,
    }
}

/// The working set that every render starts from.
pub open spec fn seed_grid() -> Seq<Seed> {
    Seq::new(SEED_COUNT as nat, |k: int| seed_at(k))
}

/// Builds the working set: the same points in the same order each time.
pub fn seed_points() -> (seeds: Vec<Seed>)
    ensures
        seeds@ == seed_grid(),
        seeds@.len() == SEED_COUNT,
{
    let mut seeds: Vec<Seed> = Vec::new();
    seeds.push(Seed { x_tenths: 0, y_tenths: 0, mirrored: false });
    let mut cell: u8 = 1;
    while cell < 100
        invariant
            1 <= cell <= 100,
            seeds@.len() == 2 * cell - 1,
            forall|k: int| 0 <= k < seeds@.len() ==> seeds@[k] == seed_at(k),
        decreases 100 - cell,
    {
        let x_tenths: u8 = cell / GRID_SIDE;
        let y_tenths: u8 = cell % GRID_SIDE;
        seeds.push(Seed { x_tenths, y_tenths, mirrored: false });
        seeds.push(Seed { x_tenths, y_tenths, mirrored: true });
        cell = cell + 1;
    }
    assert(seeds@ =~= seed_grid());
    seeds
}

/// The working set begins with the origin, and every other cell of the grid
/// gives two seeds side by side: the cell's point, then its mirror image.
pub proof fn lemma_seed_pairs(x: int, y: int)
    requires
        0 <= x < GRID_SIDE,
        0 <= y < GRID_SIDE,
        x != 0 || y != 0,
    ensures
        seed_grid()[0] == (Seed { x_tenths: 0, y_tenths: 0, mirrored: false }),
        2 * (GRID_SIDE * x + y) < seed_grid().len(),
        seed_grid()[2 * (GRID_SIDE * x + y) - 1] == (Seed {
            x_tenths: x as u8,
            y_tenths: y as u8,
            mirrored: false,
        }),
        seed_grid()[2 * (GRID_SIDE * x + y)] == (Seed {
            x_tenths: x as u8,
            y_tenths: y as u8,
            mirrored: true,
        }),
{
}

/// The points take turns: a point's turn comes again after as many steps as
/// there are points, and not before.
pub proof fn lemma_points_take_turns(step: nat, later: nat)
    requires
        step < later <= step + SEED_COUNT,
    ensures
        (later % SEED_COUNT as nat == step % SEED_COUNT as nat) <==> later == step + SEED_COUNT,
{
}

} // verus!
