use vstd::prelude::*;

verus! {

/// A seed pattern: grid offsets, row first, of the cells to revive.
pub type Pattern = Vec<(usize, usize)>;

/// The copperhead spaceship's 28 live cells.
///
/// ```text
/// -----x-xx---
/// ----x------x
/// ---xx---x--x
/// xx-x-----xx-
/// xx-x-----xx-
/// ---xx---x--x
/// ----x------x
/// -----x-xx---
/// ```
pub open spec fn copperhead_coords() -> Seq<(usize, usize)> {
    seq![
        (0usize, 5usize),
        (0usize, 7usize),
        (0usize, 8usize),
        (1usize, 4usize),
        (1usize, 11usize),
        (2usize, 3usize),
        (2usize, 4usize),
        (2usize, 8usize),
        (2usize, 11usize),
        (3usize, 0usize),
        (3usize, 1usize),
        (3usize, 3usize),
        (3usize, 9usize),
        (3usize, 10usize),
        (4usize, 0usize),
        (4usize, 1usize),
        (4usize, 3usize),
        (4usize, 9usize),
        (4usize, 10usize),
        (5usize, 3usize),
        (5usize, 4usize),
        (5usize, 8usize),
        (5usize, 11usize),
        (6usize, 4usize),
        (6usize, 11usize),
        (7usize, 5usize),
        (7usize, 7usize),
        (7usize, 8usize),
    ]
}

/// A fresh copy of the copperhead pattern.
pub fn copperhead() -> (p: Pattern)
    ensures
        p@ == copperhead_coords(),
{
    let p: Pattern = vec![
        (0, 5),
        (0, 7),
        (0, 8),
        (1, 4),
        (1, 11),
        (2, 3),
        (2, 4),
        (2, 8),
        (2, 11),
        (3, 0),
        (3, 1),
        (3, 3),
        (3, 9),
        (3, 10),
        (4, 0),
        (4, 1),
        (4, 3),
        (4, 9),
        (4, 10),
        (5, 3),
        (5, 4),
        (5, 8),
        (5, 11),
        (6, 4),
        (6, 11),
        (7, 5),
        (7, 7),
        (7, 8),
    ];
    proof {
        assert(p@ =~= copperhead_coords());
    }
    p
}

} // verus!
