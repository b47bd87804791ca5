//! Assembly of one face bucket into deduplicated vertex and index buffers.
//!
//! Coordinate values pass through as IEEE-754 bit patterns (`u32`): the
//! assembler moves them by index and never interprets them.

use vstd::prelude::*;

use crate::obj::types::FaceVertex;

verus! {

/// The three coordinates of a position or normal, as bit patterns.
#[derive(Clone, Copy, Debug, Eq, PartialEq, Structural)]
pub struct Vec3Bits {
    pub x: u32,
    pub y: u32,
    pub z: u32,
}

/// The two coordinates of a texture coordinate, as bit patterns.
#[derive(Clone, Copy, Debug, Eq, PartialEq, Structural)]
pub struct Vec2Bits {
    pub u: u32,
    pub v: u32,
}

/// The buffers assembled from one face bucket.
#[derive(Debug)]
pub struct MeshData {
    /// One coordinate triple per deduplicated vertex.
    pub positions: Vec<Vec3Bits>,
    /// One coordinate triple per vertex; all zero, the bit pattern of
    /// floating-point zero, for corners without a normal index.
    pub normals: Vec<Vec3Bits>,
    /// One coordinate pair per vertex when `has_uv_mapping` is set, and
    /// empty otherwise.
    pub texcoords: Vec<Vec2Bits>,
    /// One entry per face corner in source order, naming the vertex that
    /// the corner deduplicated to.
    pub indices: Vec<u32>,
    /// Every vertex of the bucket resolved a texture coordinate.
    pub has_uv_mapping: bool,
}

/// Why a bucket was rejected.
#[derive(Clone, Copy, Debug, Eq, PartialEq, Structural)]
pub enum AssembleError {
    /// A face reached assembly with a corner count other than three.
    NonTriangulatedFace,
    /// A corner names an entry outside the arrays it was resolved against.
    CornerOutOfRange,
    /// The corner count does not fit the 32-bit index type.
    TooManyVertices,
}

/// Every face has exactly three corners.
pub open spec fn faces_triangulated(fs: Seq<Seq<FaceVertex>>) -> bool {
    forall|j: int| 0 <= j < fs.len() ==> (#[trigger] fs[j]).len() == 3
}

/// The corner indices name entries of the given arrays.
pub open spec fn corner_in_range(c: FaceVertex, np: int, nt: int, nn: int) -> bool {
    &&& c.0 < np
    &&& (c.1 matches Some(t) ==> t < nt)
    &&& (c.2 matches Some(m) ==> m < nn)
}

/// All corners of a triangulated face list, in source order.
pub open spec fn all_corners(fs: Seq<Seq<FaceVertex>>) -> Seq<FaceVertex> {
    Seq::new(fs.len() * 3, |i: int| fs[i / 3][i % 3])
}

/// The distinct corner keys of `cs` in first-seen order.
pub open spec fn dedup_keys(cs: Seq<FaceVertex>) -> Seq<FaceVertex>
    decreases cs.len(),
{
    if cs.len() == 0 {
        Seq::empty()
    } else {
        let d = dedup_keys(cs.drop_last());
        if d.contains(cs.last()) {
            d
        } else {
            d.push(cs.last())
        }
    }
}

/// The position of the first occurrence of `c` in `ks`.
pub open spec fn key_index(ks: Seq<FaceVertex>, c: FaceVertex) -> int
    decreases ks.len(),
{
    if ks.len() == 0 {
        0
    } else if ks[0] == c {
        0
    } else {
        1 + key_index(ks.drop_first(), c)
    }
}

pub proof fn key_index_bounds(ks: Seq<FaceVertex>, c: FaceVertex)
    requires
        ks.contains(c),
    ensures
        0 <= key_index(ks, c) < ks.len(),
        ks[key_index(ks, c)] == c,
    decreases ks.len(),
{
    if ks.len() > 0 && ks[0] != c {
        assert(ks.drop_first().contains(c)) by {
            let w = choose|w: int| 0 <= w < ks.len() && ks[w] == c;
            assert(ks.drop_first()[w - 1] == c);
        }
        key_index_bounds(ks.drop_first(), c);
    }
}

pub proof fn key_index_eq(ks: Seq<FaceVertex>, c: FaceVertex, j: int)
    requires
        0 <= j <= ks.len(),
        forall|k: int| 0 <= k < j ==> ks[k] != c,
        j < ks.len() ==> ks[j] == c,
    ensures
        key_index(ks, c) == j,
    decreases j,
{
    if ks.len() > 0 && j > 0 {
        key_index_eq(ks.drop_first(), c, j - 1);
    }
}

pub proof fn key_index_append(ks: Seq<FaceVertex>, c: FaceVertex, x: FaceVertex)
    requires
        ks.contains(c),
    ensures
        key_index(ks.push(x), c) == key_index(ks, c),
    decreases ks.len(),
{
    key_index_bounds(ks, c);
    if ks[0] != c {
        assert(ks.drop_first().contains(c)) by {
            let w = choose|w: int| 0 <= w < ks.len() && ks[w] == c;
            assert(ks.drop_first()[w - 1] == c);
        }
        assert(ks.push(x).drop_first() =~= ks.drop_first().push(x));
        key_index_append(ks.drop_first(), c, x);
    }
}

pub proof fn key_index_push_new(ks: Seq<FaceVertex>, x: FaceVertex)
    requires
        !ks.contains(x),
    ensures
        key_index(ks.push(x), x) == ks.len(),
{
    key_index_eq(ks.push(x), x, ks.len() as int);
}

/// Decides equality of two corner keys.
fn key_eq(a: &FaceVertex, b: &FaceVertex) -> (r: bool)
    ensures
        r == (a == b),
{
    if a.0 != b.0 {
        return false;
    }
    let t_eq = match (a.1, b.1) {
        (None, None) => true,
        (Some(x), Some(y)) => x == y,
        _ => false,
    };
    if !t_eq {
        return false;
    }
    match (a.2, b.2) {
        (None, None) => true,
        (Some(x), Some(y)) => x == y,
        _ => false,
    }
}

/// Every key of `ks` carries a texture-coordinate index.
pub open spec fn all_have_uv(ks: Seq<FaceVertex>) -> bool {
    forall|j: int| 0 <= j < ks.len() ==> (#[trigger] ks[j]).1 is Some
}

/// The well-formed inputs: triangulated faces whose corners stay inside
/// the coordinate arrays, with a corner count that fits the index type.
pub open spec fn assemble_ok(
    fs: Seq<Seq<FaceVertex>>,
    np: int,
    nt: int,
    nn: int,
) -> bool {
    &&& faces_triangulated(fs)
    &&& forall|i: int|
        0 <= i < all_corners(fs).len() ==> corner_in_range(#[trigger] all_corners(fs)[i], np, nt, nn)
    &&& fs.len() * 3 <= u32::MAX
}

/// The faces of a bucket as sequences.
pub open spec fn faces_seq(fs: Seq<Vec<FaceVertex>>) -> Seq<Seq<FaceVertex>> {
    Seq::new(fs.len(), |j: int| fs[j]@)
}

/// Assembles one bucket of triangulated faces into deduplicated buffers:
/// each distinct corner key becomes one vertex, in first-seen order; the
/// index buffer names that vertex for every corner in source order; and
/// per-vertex texture coordinates are published only when every vertex
/// resolved one.
#[verifier::rlimit(100)]
#[verifier::loop_isolation(false)]
pub fn assemble_bucket(
    faces: &Vec<Vec<FaceVertex>>,
    positions: &Vec<Vec3Bits>,
    normals: &Vec<Vec3Bits>,
    texcoords: &Vec<Vec2Bits>,
) -> (r: Result<MeshData, AssembleError>)
    ensures
        r is Ok <==> assemble_ok(
            faces_seq(faces@),
            positions@.len() as int,
            texcoords@.len() as int,
            normals@.len() as int,
        ),
        r matches Ok(m) ==> {
            let cs = all_corners(faces_seq(faces@));
            let ks = dedup_keys(cs);
            &&& m.indices@.len() == cs.len()
            &&& forall|c: int| 0 <= c < cs.len() ==> m.indices@[c] == key_index(ks, cs[c])
            &&& m.positions@.len() == ks.len()
            &&& forall|j: int|
                0 <= j < ks.len() ==> m.positions@[j] == positions@[(#[trigger] ks[j]).0 as int]
            &&& m.normals@.len() == ks.len()
            &&& forall|j: int|
                0 <= j < ks.len() ==> m.normals@[j] == (match (#[trigger] ks[j]).2 {
                    Some(ni) => normals@[ni as int],
                    None => Vec3Bits { x: 0u32, y: 0u32, z: 0u32 },
                })
            &&& m.has_uv_mapping == (ks.len() > 0 && all_have_uv(ks))
            &&& (m.has_uv_mapping ==> m.texcoords@.len() == ks.len())
            &&& (m.has_uv_mapping ==> forall|j: int|
                0 <= j < ks.len() ==> m.texcoords@[j] == texcoords@[(#[trigger] ks[j]).1->0 as int])
            &&& (!m.has_uv_mapping ==> m.texcoords@.len() == 0)
        },
        r == Err::<MeshData, _>(AssembleError::NonTriangulatedFace) <==> !faces_triangulated(
            faces_seq(faces@),
        ),
{
    let ghost fsv = faces_seq(faces@);
    let nf = faces.len();
    let np = positions.len();
    let ntex = texcoords.len();
    let nn = normals.len();

    let mut j: usize = 0;
    while j < nf
        invariant
            0 <= j <= nf,
            nf == fsv.len(),
            fsv == faces_seq(faces@),
            forall|q: int| 0 <= q < j ==> (#[trigger] fsv[q]).len() == 3,
        decreases nf - j,
    {
        if faces[j].len() != 3 {
            proof {
                assert(fsv[j as int].len() != 3);
            }
            return Err(AssembleError::NonTriangulatedFace);
        }
        j = j + 1;
    }
    proof {
        assert(faces_triangulated(fsv));
    }

    let ghost cs = all_corners(fsv);
    if nf > 0x5555_5555usize {
        proof {
            assert(fsv.len() * 3 > u32::MAX);
            assert(!assemble_ok(fsv, np as int, ntex as int, nn as int));
        }
        return Err(AssembleError::TooManyVertices);
    }

    let mut i: usize = 0;
    let n_corners: usize = nf * 3;
    while i < n_corners
        invariant
            0 <= i <= n_corners,
            n_corners == cs.len(),
            nf == fsv.len(),
            fsv == faces_seq(faces@),
            cs == all_corners(fsv),
            faces_triangulated(fsv),
            np == positions@.len(),
            ntex == texcoords@.len(),
            nn == normals@.len(),
            forall|q: int|
                0 <= q < i ==> corner_in_range(#[trigger] cs[q], np as int, ntex as int, nn as int),
        decreases n_corners - i,
    {
        let fj = i / 3;
        let fk = i % 3;
        proof {
            assert(0 <= i as int / 3 < nf);
            assert(fsv[i as int / 3] == faces@[i as int / 3]@);
            assert(fsv[i as int / 3].len() == 3);
        }
        let c = faces[fj][fk];
        proof {
            assert(cs[i as int] == fsv[i as int / 3][i as int % 3]);
            assert(c == cs[i as int]);
        }
        let mut ok = c.0 < np;
        match c.1 {
            Some(t) => {
                if t >= ntex {
                    ok = false;
                }
            },
            None => {},
        }
        match c.2 {
            Some(m) => {
                if m >= nn {
                    ok = false;
                }
            },
            None => {},
        }
        if !ok {
            proof {
                assert(!corner_in_range(cs[i as int], np as int, ntex as int, nn as int));
            }
            return Err(AssembleError::CornerOutOfRange);
        }
        i = i + 1;
    }
    proof {
        assert(assemble_ok(fsv, np as int, ntex as int, nn as int));
    }

    let mut keys: Vec<FaceVertex> = Vec::new();
    let mut indices: Vec<u32> = Vec::new();
    let mut pbuf: Vec<Vec3Bits> = Vec::new();
    let mut nbuf: Vec<Vec3Bits> = Vec::new();

    let mut i: usize = 0;
    while i < n_corners
        invariant
            0 <= i <= n_corners,
            n_corners == cs.len(),
            n_corners <= u32::MAX,
            nf == fsv.len(),
            fsv == faces_seq(faces@),
            cs == all_corners(fsv),
            faces_triangulated(fsv),
            np == positions@.len(),
            ntex == texcoords@.len(),
            nn == normals@.len(),
            forall|q: int|
                0 <= q < cs.len() ==> corner_in_range(
                    #[trigger] cs[q],
                    np as int,
                    ntex as int,
                    nn as int,
                ),
            keys@ == dedup_keys(cs.take(i as int)),
            keys@.len() <= i,
            indices@.len() == i,
            forall|q: int|
                0 <= q < i ==> keys@.contains(#[trigger] cs[q]) && indices@[q] == key_index(
                    keys@,
                    cs[q],
                ),
            pbuf@.len() == keys@.len(),
            forall|q: int|
                0 <= q < keys@.len() ==> corner_in_range(
                    #[trigger] keys@[q],
                    np as int,
                    ntex as int,
                    nn as int,
                ),
            forall|q: int|
                0 <= q < keys@.len() ==> pbuf@[q] == positions@[(#[trigger] keys@[q]).0 as int],
            nbuf@.len() == keys@.len(),
            forall|q: int|
                0 <= q < keys@.len() ==> nbuf@[q] == (match (#[trigger] keys@[q]).2 {
                    Some(ni) => normals@[ni as int],
                    None => Vec3Bits { x: 0u32, y: 0u32, z: 0u32 },
                }),
        decreases n_corners - i,
    {
        let fj = i / 3;
        let fk = i % 3;
        proof {
            assert(0 <= i as int / 3 < nf);
            assert(fsv[i as int / 3] == faces@[i as int / 3]@);
            assert(fsv[i as int / 3].len() == 3);
        }
        let c = faces[fj][fk];
        proof {
            assert(cs[i as int] == fsv[i as int / 3][i as int % 3]);
            assert(c == cs[i as int]);
            assert(cs.take(i + 1).drop_last() =~= cs.take(i as int));
            assert(cs.take(i + 1).last() == cs[i as int]);
        }
        let nk = keys.len();
        let mut found: usize = nk;
        let mut w: usize = 0;
        while w < nk && found == nk
            invariant
                0 <= w <= nk,
                nk == keys@.len(),
                forall|q: int| 0 <= q < w ==> keys@[q] != c,
                found <= nk,
                found < nk ==> keys@[found as int] == c && found == w,
            decreases nk - w + (if found == nk { 1int } else { 0 }),
        {
            if key_eq(&keys[w], &c) {
                found = w;
            } else {
                w = w + 1;
            }
        }
        if found < nk {
            proof {
                assert(keys@.contains(c)) by {
                    assert(keys@[found as int] == c);
                }
                key_index_eq(keys@, c, found as int);
            }
            indices.push(found as u32);
        } else {
            proof {
                assert(!keys@.contains(c)) by {
                    if keys@.contains(c) {
                        let q = choose|q: int| 0 <= q < keys@.len() && keys@[q] == c;
                        assert(keys@[q] != c);
                    }
                }
            }
            let ghost keys0 = keys@;
            keys.push(c);
            pbuf.push(positions[c.0]);
            match c.2 {
                Some(ni) => {
                    nbuf.push(normals[ni]);
                },
                None => {
                    nbuf.push(Vec3Bits { x: 0, y: 0, z: 0 });
                },
            }
            proof {
                key_index_push_new(keys0, c);
                assert(keys@.contains(c)) by {
                    assert(keys@[keys0.len() as int] == c);
                }
                assert forall|q: int|
                    0 <= q < i implies keys@.contains(#[trigger] cs[q]) && indices@[q]
                    == key_index(keys@, cs[q]) by {
                    assert(keys0.contains(cs[q]));
                    key_index_bounds(keys0, cs[q]);
                    key_index_append(keys0, cs[q], c);
                    assert(keys@[key_index(keys0, cs[q])] == cs[q]);
                }
            }
            indices.push(nk as u32);
        }
        i = i + 1;
        proof {
            assert(keys@ == dedup_keys(cs.take(i as int)));
        }
    }
    proof {
        assert(cs.take(n_corners as int) =~= cs);
    }

    let ghost ks = dedup_keys(cs);
    let nkeys = keys.len();
    let mut all_uv = nkeys > 0;
    let mut q: usize = 0;
    while q < nkeys
        invariant
            0 <= q <= nkeys,
            nkeys == keys@.len(),
            keys@ == ks,
            all_uv == (nkeys > 0 && forall|p: int| 0 <= p < q ==> (#[trigger] ks[p]).1 is Some),
        decreases nkeys - q,
    {
        let present = match keys[q].1 {
            Some(_) => true,
            None => false,
        };
        if !present {
            all_uv = false;
        }
        q = q + 1;
    }
    proof {
        assert(all_uv == (ks.len() > 0 && all_have_uv(ks)));
    }

    let mut tbuf: Vec<Vec2Bits> = Vec::new();
    if all_uv {
        let mut q: usize = 0;
        while q < nkeys
            invariant
                0 <= q <= nkeys,
                nkeys == keys@.len(),
                keys@ == ks,
                ks.len() > 0 && all_have_uv(ks),
                ntex == texcoords@.len(),
                forall|p: int|
                    0 <= p < ks.len() ==> corner_in_range(
                        #[trigger] ks[p],
                        np as int,
                        ntex as int,
                        nn as int,
                    ),
                tbuf@.len() == q,
                forall|p: int|
                    0 <= p < q ==> tbuf@[p] == texcoords@[(#[trigger] ks[p]).1->0 as int],
            decreases nkeys - q,
        {
            let ti = match keys[q].1 {
                Some(t) => t,
                None => 0,
            };
            tbuf.push(texcoords[ti]);
            q = q + 1;
        }
    }

    Ok(
        MeshData {
            positions: pbuf,
            normals: nbuf,
            texcoords: tbuf,
            indices,
            has_uv_mapping: all_uv,
        },
    )
}

pub proof fn dedup_contains(cs: Seq<FaceVertex>, q: int)
    requires
        0 <= q < cs.len(),
    ensures
        dedup_keys(cs).contains(cs[q]),
    decreases cs.len(),
{
    if cs.len() > 0 {
        if q == cs.len() - 1 {
            if !dedup_keys(cs.drop_last()).contains(cs.last()) {
                assert(dedup_keys(cs).last() == cs.last());
            }
        } else {
            dedup_contains(cs.drop_last(), q);
            let d = dedup_keys(cs.drop_last());
            let w = choose|w: int| 0 <= w < d.len() && d[w] == cs.drop_last()[q];
            if !d.contains(cs.last()) {
                assert(dedup_keys(cs)[w] == cs[q]);
            }
        }
    }
}

/// Two corners of one bucket deduplicate to the same vertex exactly when
/// they share the whole key of position, texture-coordinate and normal
/// indices; corners of different buckets are assembled independently, each
/// bucket against its own key list.
pub proof fn lemma_corner_dedup(cs: Seq<FaceVertex>, a: int, b: int)
    requires
        0 <= a < cs.len(),
        0 <= b < cs.len(),
    ensures
        (cs[a] == cs[b]) <==> (key_index(dedup_keys(cs), cs[a]) == key_index(
            dedup_keys(cs),
            cs[b],
        )),
{
    dedup_contains(cs, a);
    dedup_contains(cs, b);
    key_index_bounds(dedup_keys(cs), cs[a]);
    key_index_bounds(dedup_keys(cs), cs[b]);
}

/// The deduplicated key list holds each key once: distinct vertices carry
/// distinct keys.
pub proof fn dedup_keys_distinct(cs: Seq<FaceVertex>, i: int, j: int)
    requires
        0 <= i < j < dedup_keys(cs).len(),
    ensures
        dedup_keys(cs)[i] != dedup_keys(cs)[j],
    decreases cs.len(),
{
    if cs.len() > 0 {
        let d = dedup_keys(cs.drop_last());
        if d.contains(cs.last()) {
            dedup_keys_distinct(cs.drop_last(), i, j);
        } else {
            if j < d.len() {
                dedup_keys_distinct(cs.drop_last(), i, j);
            } else {
                assert(dedup_keys(cs)[j] == cs.last());
                assert(dedup_keys(cs)[i] == d[i]);
                if d[i] == cs.last() {
                    assert(d.contains(cs.last()));
                }
            }
        }
    }
}

} // verus!
