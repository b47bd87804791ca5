//! The outcome type of face triangulation, and the fan fallback.
//!
//! The robust ear-clipping path decides over floating-point geometry, so
//! it lives with the renderer-side code; what it returns, and the fan that
//! callers fall back to, are fixed here.

use vstd::prelude::*;

verus! {

/// How a face was triangulated: a list of corner-index triples from the
/// robust path, or the instruction to fan out from corner zero.
#[derive(Clone, Debug, Eq, PartialEq)]
pub enum TriangulationOutcome {
    Robust(Vec<[usize; 3]>),
    FallbackFan,
}

/// The fan triangulation of a face with `corner_count` corners: corner 0
/// joined to each consecutive pair.
pub fn fan_triangulate(corner_count: usize) -> (r: Vec<[usize; 3]>)
    requires
        3 <= corner_count,
    ensures
        r@.len() == corner_count - 2,
        forall|i: int|
            0 <= i < r@.len() ==> (#[trigger] r@[i])@ =~= seq![0, (i + 1) as usize, (i + 2) as usize],
{
    let mut r: Vec<[usize; 3]> = Vec::new();
    let mut i: usize = 1;
    while i + 1 < corner_count
        invariant
            1 <= i <= corner_count - 1,
            r@.len() == i - 1,
            forall|j: int|
                0 <= j < r@.len() ==> (#[trigger] r@[j])@ =~= seq![
                    0,
                    (j + 1) as usize,
                    (j + 2) as usize,
                ],
        decreases corner_count - i,
    {
        let tri: [usize; 3] = [0, i, i + 1];
        proof {
            assert(tri@ =~= seq![0, i, (i + 1) as usize]);
        }
        r.push(tri);
        i = i + 1;
    }
    r
}

} // verus!
