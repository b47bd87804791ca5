//! The OBJ parser: a line-oriented pass over the text that collects raw
//! coordinate tokens, resolves face-vertex indices, gathers faces into
//! per-material buckets, and records the material files to load.

use vstd::prelude::*;

use crate::chars::{chars_eq_str, chars_to_string, str_to_chars};
use crate::lex::{check_float_chars, is_float_token, split_lines, split_text_lines, split_ws, trim,
    trim_chars, tokenize};
use crate::obj::face::{collect_directive_values, face_vertex_err, parse_face_vertex,
    spec_face_vertex, str_eq, values_until_comment};
use crate::obj::types::{Coord2, Coord3, FaceBucket, FaceVertex, ObjError, ObjErrorKind,
    ObjLoadOptions, ObjParseOutput, SpecObjErrKind, err_view};

verus! {

/// One resolved corner, as the contracts speak of it.
pub type SpecCorner = (int, Option<int>, Option<int>);

/// One face: its corners in order.
pub type SpecFace = Seq<SpecCorner>;

/// One face bucket, as the contracts speak of it.
pub struct SpecBucket {
    pub material: Option<Seq<char>>,
    pub faces: Seq<SpecFace>,
}

/// The parser state after some prefix of the lines.
pub struct ObjState {
    pub positions: Seq<(Seq<char>, Seq<char>, Seq<char>)>,
    pub normals: Seq<(Seq<char>, Seq<char>, Seq<char>)>,
    pub texcoords: Seq<(Seq<char>, Seq<char>)>,
    pub current: Option<Seq<char>>,
    pub buckets: Seq<SpecBucket>,
    pub mtl_files: Seq<Seq<char>>,
}

/// The view of an optional string.
pub open spec fn opt_view(o: Option<String>) -> Option<Seq<char>> {
    match o {
        Some(s) => Some(s@),
        None => None,
    }
}

/// The views of a vector of three-token coordinates.
pub open spec fn coords3_view(v: Seq<Coord3>) -> Seq<(Seq<char>, Seq<char>, Seq<char>)> {
    Seq::new(v.len(), |i: int| (v[i].x@, v[i].y@, v[i].z@))
}

/// The views of a vector of two-token coordinates.
pub open spec fn coords2_view(v: Seq<Coord2>) -> Seq<(Seq<char>, Seq<char>)> {
    Seq::new(v.len(), |i: int| (v[i].u@, v[i].v@))
}

/// The view of one resolved corner.
pub open spec fn corner_view(fv: FaceVertex) -> SpecCorner {
    (
        fv.0 as int,
        match fv.1 {
            Some(v) => Some(v as int),
            None => None,
        },
        match fv.2 {
            Some(v) => Some(v as int),
            None => None,
        },
    )
}

/// The view of one face.
pub open spec fn face_view(f: Seq<FaceVertex>) -> SpecFace {
    Seq::new(f.len(), |k: int| corner_view(f[k]))
}

/// The views of the faces of a bucket.
pub open spec fn faces_view(fs: Seq<Vec<FaceVertex>>) -> Seq<SpecFace> {
    Seq::new(fs.len(), |j: int| face_view(fs[j]@))
}

/// The view of one bucket.
pub open spec fn bucket_view(b: FaceBucket) -> SpecBucket {
    SpecBucket { material: opt_view(b.material), faces: faces_view(b.faces@) }
}

/// The views of the buckets.
pub open spec fn buckets_view(bs: Seq<FaceBucket>) -> Seq<SpecBucket> {
    Seq::new(bs.len(), |i: int| bucket_view(bs[i]))
}

/// The views of the collected material file names.
pub open spec fn strings_view(v: Seq<String>) -> Seq<Seq<char>> {
    Seq::new(v.len(), |i: int| v[i]@)
}

/// The bucket that material context `m` selects: the first with that
/// material, or the length if none has it yet.
pub open spec fn bucket_idx(bs: Seq<SpecBucket>, m: Option<Seq<char>>) -> int
    decreases bs.len(),
{
    if bs.len() == 0 {
        0
    } else if bs[0].material == m {
        0
    } else {
        1 + bucket_idx(bs.drop_first(), m)
    }
}

pub proof fn bucket_idx_eq(bs: Seq<SpecBucket>, m: Option<Seq<char>>, j: int)
    requires
        0 <= j <= bs.len(),
        forall|k: int| 0 <= k < j ==> bs[k].material != m,
        j < bs.len() ==> bs[j].material == m,
    ensures
        bucket_idx(bs, m) == j,
    decreases j,
{
    if bs.len() == 0 {
    } else if j == 0 {
    } else {
        assert(bs[0].material != m);
        bucket_idx_eq(bs.drop_first(), m, j - 1);
    }
}

pub proof fn bucket_idx_bounds(bs: Seq<SpecBucket>, m: Option<Seq<char>>)
    ensures
        0 <= bucket_idx(bs, m) <= bs.len(),
    decreases bs.len(),
{
    if bs.len() > 0 && bs[0].material != m {
        bucket_idx_bounds(bs.drop_first(), m);
    }
}

/// Appends `f` to the bucket of material `m`, opening the bucket if none
/// exists yet.
pub open spec fn bucket_push(bs: Seq<SpecBucket>, m: Option<Seq<char>>, f: SpecFace) -> Seq<
    SpecBucket,
> {
    let i = bucket_idx(bs, m);
    if i < bs.len() {
        bs.update(i, SpecBucket { material: m, faces: bs[i].faces.push(f) })
    } else {
        bs.push(SpecBucket { material: m, faces: seq![f] })
    }
}

/// The first face-vertex token at or past `i` that is rejected, or the
/// token count if all resolve.
pub open spec fn first_bad_corner(toks: Seq<Seq<char>>, i: int, np: int, nt: int, nn: int) -> int
    decreases toks.len() - i,
{
    if i < 0 || i >= toks.len() || face_vertex_err(toks[i], np, nt, nn) is Some {
        i
    } else {
        first_bad_corner(toks, i + 1, np, nt, nn)
    }
}

pub proof fn first_bad_corner_eq(toks: Seq<Seq<char>>, i: int, j: int, np: int, nt: int, nn: int)
    requires
        0 <= i <= j <= toks.len(),
        forall|k: int| i <= k < j ==> face_vertex_err(#[trigger] toks[k], np, nt, nn) is None,
        j < toks.len() ==> face_vertex_err(toks[j], np, nt, nn) is Some,
    ensures
        first_bad_corner(toks, i, np, nt, nn) == j,
    decreases j - i,
{
    if i < j {
        first_bad_corner_eq(toks, i + 1, j, np, nt, nn);
    }
}

/// The resolved face of a run of accepted face-vertex tokens.
pub open spec fn spec_face_of(toks: Seq<Seq<char>>, np: int, nt: int, nn: int) -> SpecFace {
    Seq::new(toks.len(), |k: int| spec_face_vertex(toks[k], np, nt, nn))
}

/// The resolved face of an `f` line, or the error it raises: the line
/// needs at least three corner tokens before any inline comment, and each
/// resolves against the entries defined so far.
pub open spec fn corners_step(parts: Seq<Seq<char>>, np: int, nt: int, nn: int, lineno: int) -> Result<
    SpecFace,
    (int, SpecObjErrKind),
> {
    let cs = values_until_comment(parts, 1);
    let bad = first_bad_corner(cs, 0, np, nt, nn);
    if parts.len() < 4 {
        Err((lineno, SpecObjErrKind::MissingComponents("f"@)))
    } else if cs.len() < 3 {
        Err((lineno, SpecObjErrKind::MissingComponents("f"@)))
    } else if bad < cs.len() {
        Err((lineno, face_vertex_err(cs[bad], np, nt, nn)->0))
    } else {
        Ok(spec_face_of(cs, np, nt, nn))
    }
}

/// What an `f` line does to the face buckets: the face lands whole in the
/// bucket of the current material; without `tri`, a corner count other
/// than three is an error.
pub open spec fn face_step(
    buckets: Seq<SpecBucket>,
    current: Option<Seq<char>>,
    parts: Seq<Seq<char>>,
    np: int,
    nt: int,
    nn: int,
    tri: bool,
    lineno: int,
) -> Result<Seq<SpecBucket>, (int, SpecObjErrKind)> {
    match corners_step(parts, np, nt, nn, lineno) {
        Err(e) => Err(e),
        Ok(face) => if !tri && face.len() != 3 {
            Err((lineno, SpecObjErrKind::NonTriangularFace))
        } else {
            Ok(bucket_push(buckets, current, face))
        },
    }
}

/// What one line does to the parser state, or the error it raises; the
/// checks of each directive run in source order.
pub open spec fn obj_step(st: ObjState, tri: bool, line: Seq<char>, lineno: int) -> Result<
    ObjState,
    (int, SpecObjErrKind),
> {
    let t = trim(line);
    if t.len() == 0 || t[0] == '#' {
        Ok(st)
    } else {
        let parts = split_ws(t);
        if parts.len() == 0 {
            Ok(st)
        } else if parts[0] == "v"@ {
            if parts.len() < 4 {
                Err((lineno, SpecObjErrKind::MissingComponents("v"@)))
            } else if !is_float_token(parts[1]) {
                Err((lineno, SpecObjErrKind::BadNumericComponent(parts[1])))
            } else if !is_float_token(parts[2]) {
                Err((lineno, SpecObjErrKind::BadNumericComponent(parts[2])))
            } else if !is_float_token(parts[3]) {
                Err((lineno, SpecObjErrKind::BadNumericComponent(parts[3])))
            } else {
                Ok(ObjState { positions: st.positions.push((parts[1], parts[2], parts[3])), ..st })
            }
        } else if parts[0] == "vn"@ {
            if parts.len() < 4 {
                Err((lineno, SpecObjErrKind::MissingComponents("vn"@)))
            } else if !is_float_token(parts[1]) {
                Err((lineno, SpecObjErrKind::BadNumericComponent(parts[1])))
            } else if !is_float_token(parts[2]) {
                Err((lineno, SpecObjErrKind::BadNumericComponent(parts[2])))
            } else if !is_float_token(parts[3]) {
                Err((lineno, SpecObjErrKind::BadNumericComponent(parts[3])))
            } else {
                Ok(ObjState { normals: st.normals.push((parts[1], parts[2], parts[3])), ..st })
            }
        } else if parts[0] == "vt"@ {
            if parts.len() < 3 {
                Err((lineno, SpecObjErrKind::MissingComponents("vt"@)))
            } else if !is_float_token(parts[1]) {
                Err((lineno, SpecObjErrKind::BadNumericComponent(parts[1])))
            } else if !is_float_token(parts[2]) {
                Err((lineno, SpecObjErrKind::BadNumericComponent(parts[2])))
            } else {
                Ok(ObjState { texcoords: st.texcoords.push((parts[1], parts[2])), ..st })
            }
        } else if parts[0] == "f"@ {
            let np = st.positions.len() as int;
            let nt = st.texcoords.len() as int;
            let nn = st.normals.len() as int;
            match face_step(st.buckets, st.current, parts, np, nt, nn, tri, lineno) {
                Ok(b) => Ok(ObjState { buckets: b, ..st }),
                Err(e) => Err(e),
            }
        } else if parts[0] == "usemtl"@ {
            let vs = values_until_comment(parts, 1);
            if vs.len() == 0 {
                Err((lineno, SpecObjErrKind::MissingDirectiveValue("usemtl"@)))
            } else {
                Ok(ObjState { current: Some(vs[0]), ..st })
            }
        } else if parts[0] == "mtllib"@ {
            let vs = values_until_comment(parts, 1);
            if vs.len() == 0 {
                Err((lineno, SpecObjErrKind::MissingDirectiveValue("mtllib"@)))
            } else {
                Ok(ObjState { mtl_files: st.mtl_files + vs, ..st })
            }
        } else {
            Ok(st)
        }
    }
}

/// Folds `obj_step` over the lines from position `i` on.
pub open spec fn obj_fold(lines: Seq<Seq<char>>, i: int, st: ObjState, tri: bool) -> Result<
    ObjState,
    (int, SpecObjErrKind),
>
    decreases lines.len() - i,
{
    if i < 0 || i >= lines.len() {
        Ok(st)
    } else {
        match obj_step(st, tri, lines[i], i + 1) {
            Ok(st2) => obj_fold(lines, i + 1, st2, tri),
            Err(e) => Err(e),
        }
    }
}

/// The empty starting state.
pub open spec fn obj_init() -> ObjState {
    ObjState {
        positions: Seq::empty(),
        normals: Seq::empty(),
        texcoords: Seq::empty(),
        current: None,
        buckets: Seq::empty(),
        mtl_files: Seq::empty(),
    }
}

/// The state that parsing an OBJ text reaches, or its first error.
pub open spec fn spec_parse_obj(text: Seq<char>, tri: bool) -> Result<
    ObjState,
    (int, SpecObjErrKind),
> {
    obj_fold(split_lines(text), 0, obj_init(), tri)
}

/// The view of a parse output, with the final material context beside it.
pub open spec fn out_state(o: ObjParseOutput, current: Option<Seq<char>>) -> ObjState {
    ObjState {
        positions: coords3_view(o.positions@),
        normals: coords3_view(o.normals@),
        texcoords: coords2_view(o.texcoords@),
        current,
        buckets: buckets_view(o.buckets@),
        mtl_files: strings_view(o.mtl_files@),
    }
}

/// Compares two optional material names by their characters.
fn opt_name_eq(a: &Option<String>, b: &Option<String>) -> (r: bool)
    ensures
        r == (opt_view(*a) == opt_view(*b)),
{
    match (a, b) {
        (None, None) => true,
        (Some(x), Some(y)) => {
            let xc = str_to_chars(x.as_str());
            if chars_eq_str(xc.as_slice(), y.as_str()) {
                true
            } else {
                proof {
                    assert(x@ != y@);
                }
                false
            }
        },
        _ => false,
    }
}

/// Appends `face` to the bucket of `material`, opening one if needed.
fn push_face_to_bucket(buckets: &mut Vec<FaceBucket>, material: &Option<String>, face: Vec<
    FaceVertex,
>)
    ensures
        buckets_view(final(buckets)@) == bucket_push(
            buckets_view(old(buckets)@),
            opt_view(*material),
            face_view(face@),
        ),
{
    let ghost bv = buckets_view(buckets@);
    let ghost m = opt_view(*material);
    let n = buckets.len();
    let mut i: usize = 0;
    while i < n && !opt_name_eq(&buckets[i].material, material)
        invariant
            0 <= i <= n,
            n == buckets@.len(),
            bv == buckets_view(buckets@),
            m == opt_view(*material),
            forall|k: int| 0 <= k < i ==> bv[k].material != m,
        decreases n - i,
    {
        proof {
            assert(bv[i as int].material == opt_view(buckets@[i as int].material));
        }
        i = i + 1;
    }
    proof {
        if i < n {
            assert(bv[i as int].material == opt_view(buckets@[i as int].material));
        }
        bucket_idx_eq(bv, m, i as int);
    }
    if i < n {
        let ghost old_bs = buckets@;
        let ghost fv = face_view(face@);
        let mut bk = buckets.remove(i);
        bk.faces.push(face);
        buckets.insert(i, bk);
        proof {
            assert(buckets@ =~= old_bs.update(i as int, buckets@[i as int]));
            assert(buckets@[i as int].faces@ =~= old_bs[i as int].faces@.push(face));
            assert(faces_view(buckets@[i as int].faces@) =~= bv[i as int].faces.push(fv));
            let newv = buckets_view(buckets@);
            let target = bucket_push(bv, m, fv);
            assert forall|k: int| 0 <= k < newv.len() implies newv[k] == target[k] by {
                if k != i {
                    assert(buckets@[k] == old_bs[k]);
                }
            }
            assert(newv =~= target);
        }
    } else {
        let name = match material {
            Some(s) => Some(s.clone()),
            None => None,
        };
        let mut faces: Vec<Vec<FaceVertex>> = Vec::new();
        faces.push(face);
        buckets.push(FaceBucket { material: name, faces });
        proof {
            assert(faces_view(buckets@[n as int].faces@) =~= seq![face_view(face@)]);
            assert(buckets_view(buckets@) =~= bucket_push(bv, m, face_view(face@)));
        }
    }
}

/// Decides `is_float_token` for a string slice.
fn check_float_str(t: &str) -> (r: bool)
    ensures
        r == is_float_token(t@),
{
    let c = str_to_chars(t);
    check_float_chars(c.as_slice())
}

/// The tokens of `parts` from `start` on, up to the first one that opens
/// a trailing comment.
fn tokens_until_comment(parts: &Vec<String>, start: usize) -> (vs: Vec<String>)
    requires
        1 <= start,
    ensures
        vs.deep_view() == values_until_comment(parts.deep_view(), start as int),
{
    let mut vs: Vec<String> = Vec::new();
    let n = parts.len();
    let mut i = start;
    let mut stopped = start > n;
    proof {
        assert(vs.deep_view() =~= Seq::<Seq<char>>::empty());
        if start > n {
            assert(values_until_comment(parts.deep_view(), start as int) =~= Seq::<
                Seq<char>,
            >::empty());
        }
    }
    while !stopped && i < n
        invariant
            start <= i || stopped,
            i <= n || stopped,
            n == parts.deep_view().len(),
            values_until_comment(parts.deep_view(), start as int) == vs.deep_view() + (
            if stopped {
                Seq::<Seq<char>>::empty()
            } else {
                values_until_comment(parts.deep_view(), i as int)
            }),
        decreases n - i + (if stopped { 0int } else { 1int }),
    {
        let p = &parts[i];
        let pc = str_to_chars(p.as_str());
        if pc.len() > 0 && pc[0] == '#' {
            stopped = true;
        } else {
            let ghost prev = vs.deep_view();
            vs.push(p.clone());
            proof {
                assert(vs.deep_view() =~= prev + seq![parts.deep_view()[i as int]]);
            }
            i = i + 1;
        }
    }
    proof {
        if !stopped {
            assert(values_until_comment(parts.deep_view(), i as int) =~= Seq::<
                Seq<char>,
            >::empty());
        }
        assert(vs.deep_view() =~= values_until_comment(parts.deep_view(), start as int));
    }
    vs
}

/// Resolves the corner tokens of an `f` line.
#[verifier::loop_isolation(false)]
fn resolve_corners(parts: &Vec<String>, np: usize, ntx: usize, nnm: usize, line_number: usize) -> (r:
    Result<Vec<FaceVertex>, ObjError>)
    ensures
        r is Ok <==> corners_step(
            parts.deep_view(),
            np as int,
            ntx as int,
            nnm as int,
            line_number as int,
        ) is Ok,
        r matches Ok(fvs) ==> Ok::<_, (int, SpecObjErrKind)>(face_view(fvs@)) == corners_step(
            parts.deep_view(),
            np as int,
            ntx as int,
            nnm as int,
            line_number as int,
        ),
        r matches Err(e) ==> Err::<SpecFace, _>(err_view(e)) == corners_step(
            parts.deep_view(),
            np as int,
            ntx as int,
            nnm as int,
            line_number as int,
        ),
{
    let ghost pv = parts.deep_view();
    if parts.len() < 4 {
        return Err(
            ObjError {
                line: line_number,
                kind: ObjErrorKind::MissingComponents { directive: "f".to_owned() },
            },
        );
    }
    let corners = tokens_until_comment(parts, 1);
    let ghost cs = values_until_comment(pv, 1);
    if corners.len() < 3 {
        return Err(
            ObjError {
                line: line_number,
                kind: ObjErrorKind::MissingComponents { directive: "f".to_owned() },
            },
        );
    }
    let mut fvs: Vec<FaceVertex> = Vec::new();
    let cn = corners.len();
    let mut k: usize = 0;
    while k < cn
        invariant
            0 <= k <= cn,
            cn == cs.len(),
            corners.deep_view() == cs,
            fvs@.len() == k,
            forall|q: int|
                0 <= q < k ==> face_vertex_err(
                    #[trigger] cs[q],
                    np as int,
                    ntx as int,
                    nnm as int,
                ) is None,
            forall|q: int|
                0 <= q < k ==> corner_view(#[trigger] fvs@[q]) == spec_face_vertex(
                    cs[q],
                    np as int,
                    ntx as int,
                    nnm as int,
                ),
        decreases cn - k,
    {
        proof {
            assert(corners@[k as int]@ == cs[k as int]);
        }
        match parse_face_vertex(corners[k].as_str(), line_number, np, ntx, nnm) {
            Ok(fv) => {
                fvs.push(fv);
            },
            Err(e) => {
                proof {
                    first_bad_corner_eq(cs, 0, k as int, np as int, ntx as int, nnm as int);
                }
                return Err(e);
            },
        }
        k = k + 1;
    }
    proof {
        first_bad_corner_eq(cs, 0, cn as int, np as int, ntx as int, nnm as int);
        assert(face_view(fvs@) =~= spec_face_of(cs, np as int, ntx as int, nnm as int));
    }
    Ok(fvs)
}

/// Handles one `f` line: resolves each corner token and buckets the face
/// whole under the current material.
#[verifier::rlimit(50)]
fn handle_face(
    buckets: &mut Vec<FaceBucket>,
    current_material: &Option<String>,
    parts: &Vec<String>,
    np: usize,
    ntx: usize,
    nnm: usize,
    tri: bool,
    line_number: usize,
) -> (r: Result<(), ObjError>)
    ensures
        r is Ok <==> face_step(
            buckets_view(old(buckets)@),
            opt_view(*current_material),
            parts.deep_view(),
            np as int,
            ntx as int,
            nnm as int,
            tri,
            line_number as int,
        ) is Ok,
        r is Ok ==> Ok::<_, (int, SpecObjErrKind)>(buckets_view(final(buckets)@)) == face_step(
            buckets_view(old(buckets)@),
            opt_view(*current_material),
            parts.deep_view(),
            np as int,
            ntx as int,
            nnm as int,
            tri,
            line_number as int,
        ),
        r matches Err(e) ==> Err::<Seq<SpecBucket>, _>(err_view(e)) == face_step(
            buckets_view(old(buckets)@),
            opt_view(*current_material),
            parts.deep_view(),
            np as int,
            ntx as int,
            nnm as int,
            tri,
            line_number as int,
        ),
        r is Err ==> final(buckets)@ == old(buckets)@,
{
    let fvs = match resolve_corners(parts, np, ntx, nnm, line_number) {
        Ok(fvs) => fvs,
        Err(e) => {
            return Err(e);
        },
    };
    let flen = fvs.len();
    if !tri && flen != 3 {
        return Err(ObjError { line: line_number, kind: ObjErrorKind::NonTriangularFace });
    }
    push_face_to_bucket(buckets, current_material, fvs);
    Ok(())
}

/// Parses OBJ text: collects `v`, `vn` and `vt` tokens, resolves the
/// corners of `f` lines and buckets the faces whole, tracks `usemtl`
/// contexts, and records `mtllib` names; without the fan-splitting option
/// a face must have exactly three corners.
#[verifier::rlimit(80)]
#[verifier::loop_isolation(false)]
pub fn parse_obj_text(text: &str, options: &ObjLoadOptions) -> (r: Result<ObjParseOutput, ObjError>)
    ensures
        r is Ok <==> spec_parse_obj(text@, options.triangulate) is Ok,
        r matches Ok(out) ==> {
            let st = spec_parse_obj(text@, options.triangulate)->Ok_0;
            &&& coords3_view(out.positions@) == st.positions
            &&& coords3_view(out.normals@) == st.normals
            &&& coords2_view(out.texcoords@) == st.texcoords
            &&& buckets_view(out.buckets@) == st.buckets
            &&& strings_view(out.mtl_files@) == st.mtl_files
        },
        r matches Err(e) ==> Err::<ObjState, _>(err_view(e)) == spec_parse_obj(
            text@,
            options.triangulate,
        ),
{
    let tri = options.triangulate;
    let chars = str_to_chars(text);
    let lines = split_text_lines(chars.as_slice());
    let ghost lv = lines.deep_view();

    let mut positions: Vec<Coord3> = Vec::new();
    let mut normals: Vec<Coord3> = Vec::new();
    let mut texcoords: Vec<Coord2> = Vec::new();
    let mut current_material: Option<String> = None;
    let mut buckets: Vec<FaceBucket> = Vec::new();
    let mut mtl_files: Vec<String> = Vec::new();

    let n = lines.len();
    let mut i: usize = 0;
    proof {
        assert(coords3_view(positions@) =~= Seq::<(Seq<char>, Seq<char>, Seq<char>)>::empty());
        assert(coords3_view(normals@) =~= Seq::<(Seq<char>, Seq<char>, Seq<char>)>::empty());
        assert(coords2_view(texcoords@) =~= Seq::<(Seq<char>, Seq<char>)>::empty());
        assert(buckets_view(buckets@) =~= Seq::<SpecBucket>::empty());
        assert(strings_view(mtl_files@) =~= Seq::<Seq<char>>::empty());
    }
    while i < n
        invariant
            0 <= i <= n,
            n == lv.len(),
            lv == lines.deep_view(),
            lv == split_lines(text@),
            obj_fold(lv, 0, obj_init(), tri) == obj_fold(
                lv,
                i as int,
                ObjState {
                    positions: coords3_view(positions@),
                    normals: coords3_view(normals@),
                    texcoords: coords2_view(texcoords@),
                    current: opt_view(current_material),
                    buckets: buckets_view(buckets@),
                    mtl_files: strings_view(mtl_files@),
                },
                tri,
            ),
        decreases n - i,
    {
        let line_number = i + 1;
        let ghost st0 = ObjState {
            positions: coords3_view(positions@),
            normals: coords3_view(normals@),
            texcoords: coords2_view(texcoords@),
            current: opt_view(current_material),
            buckets: buckets_view(buckets@),
            mtl_files: strings_view(mtl_files@),
        };
        proof {
            assert(lines@[i as int]@ =~= lv[i as int]);
        }
        let lt = trim_chars(lines[i].as_slice());
        if lt.len() > 0 && !(lt[0] == '#') {
            let toks = tokenize(lt.as_slice());
            if toks.len() > 0 {
                let mut parts: Vec<String> = Vec::new();
                let tn = toks.len();
                let mut j: usize = 0;
                proof {
                    assert(parts.deep_view() =~= toks.deep_view().take(0));
                }
                while j < tn
                    invariant
                        0 <= j <= tn,
                        tn == toks@.len(),
                        parts.deep_view() == toks.deep_view().take(j as int),
                    decreases tn - j,
                {
                    let ghost prevv = parts@;
                    proof {
                        assert(toks@[j as int]@ =~= toks.deep_view()[j as int]);
                    }
                    let snew = chars_to_string(toks[j].as_slice());
                    parts.push(snew);
                    proof {
                        let dv = parts.deep_view();
                        let target = toks.deep_view().take(j + 1);
                        assert forall|q: int| 0 <= q < dv.len() implies dv[q] == target[q] by {
                            assert(dv[q] == parts@[q].deep_view());
                            assert(parts@[q].deep_view() == parts@[q]@);
                            if q < j {
                                assert(parts@[q] == prevv[q]);
                                assert(prevv[q]@ == toks.deep_view().take(j as int)[q]);
                            } else {
                                assert(parts@[q]@ == toks.deep_view()[j as int]);
                            }
                        }
                        assert(dv =~= target);
                    }
                    j = j + 1;
                }
                proof {
                    assert(toks.deep_view().take(tn as int) =~= toks.deep_view());
                    assert(parts.deep_view() == split_ws(trim(lv[i as int])));
                }
                let ghost pv = parts.deep_view();
                let key = &parts[0];
                proof {
                    assert(key@ == pv[0]);
                }
                if str_eq(key, "v") {
                    if parts.len() < 4 {
                        return Err(
                            ObjError {
                                line: line_number,
                                kind: ObjErrorKind::MissingComponents {
                                    directive: "v".to_owned(),
                                },
                            },
                        );
                    }
                    if !check_float_str(parts[1].as_str()) {
                        return Err(
                            ObjError {
                                line: line_number,
                                kind: ObjErrorKind::BadNumericComponent {
                                    token: parts[1].clone(),
                                },
                            },
                        );
                    }
                    if !check_float_str(parts[2].as_str()) {
                        return Err(
                            ObjError {
                                line: line_number,
                                kind: ObjErrorKind::BadNumericComponent {
                                    token: parts[2].clone(),
                                },
                            },
                        );
                    }
                    if !check_float_str(parts[3].as_str()) {
                        return Err(
                            ObjError {
                                line: line_number,
                                kind: ObjErrorKind::BadNumericComponent {
                                    token: parts[3].clone(),
                                },
                            },
                        );
                    }
                    let ghost prev = coords3_view(positions@);
                    positions.push(
                        Coord3 { x: parts[1].clone(), y: parts[2].clone(), z: parts[3].clone() },
                    );
                    proof {
                        assert(coords3_view(positions@) =~= prev.push((pv[1], pv[2], pv[3])));
                    }
                } else if str_eq(key, "vn") {
                    if parts.len() < 4 {
                        return Err(
                            ObjError {
                                line: line_number,
                                kind: ObjErrorKind::MissingComponents {
                                    directive: "vn".to_owned(),
                                },
                            },
                        );
                    }
                    if !check_float_str(parts[1].as_str()) {
                        return Err(
                            ObjError {
                                line: line_number,
                                kind: ObjErrorKind::BadNumericComponent {
                                    token: parts[1].clone(),
                                },
                            },
                        );
                    }
                    if !check_float_str(parts[2].as_str()) {
                        return Err(
                            ObjError {
                                line: line_number,
                                kind: ObjErrorKind::BadNumericComponent {
                                    token: parts[2].clone(),
                                },
                            },
                        );
                    }
                    if !check_float_str(parts[3].as_str()) {
                        return Err(
                            ObjError {
                                line: line_number,
                                kind: ObjErrorKind::BadNumericComponent {
                                    token: parts[3].clone(),
                                },
                            },
                        );
                    }
                    let ghost prev = coords3_view(normals@);
                    normals.push(
                        Coord3 { x: parts[1].clone(), y: parts[2].clone(), z: parts[3].clone() },
                    );
                    proof {
                        assert(coords3_view(normals@) =~= prev.push((pv[1], pv[2], pv[3])));
                    }
                } else if str_eq(key, "vt") {
                    if parts.len() < 3 {
                        return Err(
                            ObjError {
                                line: line_number,
                                kind: ObjErrorKind::MissingComponents {
                                    directive: "vt".to_owned(),
                                },
                            },
                        );
                    }
                    if !check_float_str(parts[1].as_str()) {
                        return Err(
                            ObjError {
                                line: line_number,
                                kind: ObjErrorKind::BadNumericComponent {
                                    token: parts[1].clone(),
                                },
                            },
                        );
                    }
                    if !check_float_str(parts[2].as_str()) {
                        return Err(
                            ObjError {
                                line: line_number,
                                kind: ObjErrorKind::BadNumericComponent {
                                    token: parts[2].clone(),
                                },
                            },
                        );
                    }
                    let ghost prev = coords2_view(texcoords@);
                    texcoords.push(Coord2 { u: parts[1].clone(), v: parts[2].clone() });
                    proof {
                        assert(coords2_view(texcoords@) =~= prev.push((pv[1], pv[2])));
                    }
                } else if str_eq(key, "f") {
                    match handle_face(
                        &mut buckets,
                        &current_material,
                        &parts,
                        positions.len(),
                        texcoords.len(),
                        normals.len(),
                        tri,
                        line_number,
                    ) {
                        Ok(()) => {},
                        Err(e) => {
                            return Err(e);
                        },
                    }
                } else if str_eq(key, "usemtl") {
                    let vs = match collect_directive_values(&parts, "usemtl", line_number) {
                        Ok(vs) => vs,
                        Err(e) => {
                            return Err(e);
                        },
                    };
                    current_material = Some(vs[0].clone());
                } else if str_eq(key, "mtllib") {
                    let vs = match collect_directive_values(&parts, "mtllib", line_number) {
                        Ok(vs) => vs,
                        Err(e) => {
                            return Err(e);
                        },
                    };
                    let ghost vsd = vs.deep_view();
                    let vn = vs.len();
                    let mut q: usize = 0;
                    while q < vn
                        invariant
                            0 <= q <= vn,
                            vn == vs@.len(),
                            vsd == vs.deep_view(),
                            strings_view(mtl_files@) == st0.mtl_files + vsd.take(q as int),
                        decreases vn - q,
                    {
                        let ghost prev = strings_view(mtl_files@);
                        mtl_files.push(vs[q].clone());
                        proof {
                            assert(strings_view(mtl_files@) =~= prev.push(vsd[q as int]));
                            assert(st0.mtl_files + vsd.take(q + 1) =~= prev.push(vsd[q as int]));
                        }
                        q = q + 1;
                    }
                    proof {
                        assert(vsd.take(vn as int) =~= vsd);
                    }
                }
            }
        }
        proof {
            let st1 = ObjState {
                positions: coords3_view(positions@),
                normals: coords3_view(normals@),
                texcoords: coords2_view(texcoords@),
                current: opt_view(current_material),
                buckets: buckets_view(buckets@),
                mtl_files: strings_view(mtl_files@),
            };
            assert(obj_step(st0, tri, lv[i as int], i + 1) == Ok::<ObjState, (
                int,
                SpecObjErrKind,
            )>(st1));
        }
        i = i + 1;
    }
    Ok(
        ObjParseOutput {
            positions,
            normals,
            texcoords,
            buckets,
            mtl_files,
        },
    )
}

/// A corner references only entries defined so far.
pub open spec fn spec_corner_bounded(c: SpecCorner, np: int, nt: int, nn: int) -> bool {
    &&& 0 <= c.0 < np
    &&& (c.1 matches Some(t) ==> 0 <= t < nt)
    &&& (c.2 matches Some(m) ==> 0 <= m < nn)
}

/// Every corner of every bucketed face references only entries defined so
/// far.
pub open spec fn spec_state_bounded(st: ObjState) -> bool {
    forall|b: int, j: int, k: int|
        0 <= b < st.buckets.len() && 0 <= j < st.buckets[b].faces.len() && 0 <= k
            < st.buckets[b].faces[j].len() ==> spec_corner_bounded(
            #[trigger] st.buckets[b].faces[j][k],
            st.positions.len() as int,
            st.texcoords.len() as int,
            st.normals.len() as int,
        )
}

proof fn first_bad_corner_bounds(toks: Seq<Seq<char>>, i: int, np: int, nt: int, nn: int)
    requires
        0 <= i <= toks.len(),
    ensures
        i <= first_bad_corner(toks, i, np, nt, nn) <= toks.len(),
    decreases toks.len() - i,
{
    if i < toks.len() && !(face_vertex_err(toks[i], np, nt, nn) is Some) {
        first_bad_corner_bounds(toks, i + 1, np, nt, nn);
    }
}

proof fn corners_step_bounds(parts: Seq<Seq<char>>, np: int, nt: int, nn: int, lineno: int)
    requires
        corners_step(parts, np, nt, nn, lineno) is Ok,
    ensures
        forall|k: int|
            0 <= k < corners_step(parts, np, nt, nn, lineno)->Ok_0.len()
                ==> spec_corner_bounded(
                #[trigger] corners_step(parts, np, nt, nn, lineno)->Ok_0[k],
                np,
                nt,
                nn,
            ),
{
    let cs = values_until_comment(parts, 1);
    let face = corners_step(parts, np, nt, nn, lineno)->Ok_0;
    first_bad_corner_bounds(cs, 0, np, nt, nn);
    assert(first_bad_corner(cs, 0, np, nt, nn) == cs.len());
    assert forall|k: int| 0 <= k < face.len() implies spec_corner_bounded(
        #[trigger] face[k],
        np,
        nt,
        nn,
    ) by {
        first_bad_corner_le(cs, 0, k, np, nt, nn);
        assert(face_vertex_err(cs[k], np, nt, nn) is None);
    }
}

proof fn first_bad_corner_le(toks: Seq<Seq<char>>, i: int, k: int, np: int, nt: int, nn: int)
    requires
        0 <= i <= k < toks.len(),
        first_bad_corner(toks, i, np, nt, nn) == toks.len(),
    ensures
        face_vertex_err(toks[k], np, nt, nn) is None,
    decreases k - i,
{
    if i < k {
        first_bad_corner_le(toks, i + 1, k, np, nt, nn);
    }
}

proof fn bucket_push_bounds(
    bs: Seq<SpecBucket>,
    m: Option<Seq<char>>,
    f: SpecFace,
    np: int,
    nt: int,
    nn: int,
)
    requires
        forall|b: int, j: int, k: int|
            0 <= b < bs.len() && 0 <= j < bs[b].faces.len() && 0 <= k < bs[b].faces[j].len()
                ==> spec_corner_bounded(#[trigger] bs[b].faces[j][k], np, nt, nn),
        forall|k: int| 0 <= k < f.len() ==> spec_corner_bounded(#[trigger] f[k], np, nt, nn),
    ensures
        forall|b: int, j: int, k: int|
            0 <= b < bucket_push(bs, m, f).len() && 0 <= j < bucket_push(bs, m, f)[b].faces.len()
                && 0 <= k < bucket_push(bs, m, f)[b].faces[j].len() ==> spec_corner_bounded(
                #[trigger] bucket_push(bs, m, f)[b].faces[j][k],
                np,
                nt,
                nn,
            ),
{
    let out = bucket_push(bs, m, f);
    bucket_idx_bounds(bs, m);
    assert forall|b: int, j: int, k: int|
        0 <= b < out.len() && 0 <= j < out[b].faces.len() && 0 <= k
            < out[b].faces[j].len() implies spec_corner_bounded(
        #[trigger] out[b].faces[j][k],
        np,
        nt,
        nn,
    ) by {
        let i = bucket_idx(bs, m);
        if i < bs.len() && b == i {
            if j < bs[b].faces.len() {
                assert(out[b].faces[j][k] == bs[b].faces[j][k]);
            } else {
                assert(out[b].faces[j] == f);
            }
        } else if b < bs.len() {
            assert(out[b] == bs[b]);
        } else {
            assert(out[b].faces[j] == f);
        }
    }
}

proof fn obj_step_preserves_bounds(st: ObjState, tri: bool, line: Seq<char>, lineno: int)
    requires
        spec_state_bounded(st),
        obj_step(st, tri, line, lineno) is Ok,
    ensures
        spec_state_bounded(obj_step(st, tri, line, lineno)->Ok_0),
{
    let st1 = obj_step(st, tri, line, lineno)->Ok_0;
    let t = trim(line);
    reveal_strlit("v");
    reveal_strlit("vn");
    reveal_strlit("vt");
    reveal_strlit("f");
    reveal_strlit("usemtl");
    reveal_strlit("mtllib");
    if t.len() == 0 || t[0] == '#' {
    } else {
        let parts = split_ws(t);
        if parts.len() == 0 {
        } else if parts[0] == "f"@ {
            let np = st.positions.len() as int;
            let nt = st.texcoords.len() as int;
            let nn = st.normals.len() as int;
            assert("f"@ =~= seq!['f']);
            assert("v"@ =~= seq!['v']);
            assert("vn"@ =~= seq!['v', 'n']);
            assert("vt"@ =~= seq!['v', 't']);
            assert("f"@ != "v"@) by {
                assert("f"@[0] == 'f' && "v"@[0] == 'v');
            }
            assert("f"@ != "vn"@) by {
                assert("f"@.len() != "vn"@.len());
            }
            assert("f"@ != "vt"@) by {
                assert("f"@.len() != "vt"@.len());
            }
            assert(face_step(st.buckets, st.current, parts, np, nt, nn, tri, lineno) is Ok);
            assert(corners_step(parts, np, nt, nn, lineno) is Ok);
            corners_step_bounds(parts, np, nt, nn, lineno);
            let face = corners_step(parts, np, nt, nn, lineno)->Ok_0;
            bucket_push_bounds(st.buckets, st.current, face, np, nt, nn);
        } else {
            assert(st1.buckets == st.buckets);
            assert(st1.positions.len() >= st.positions.len());
            assert(st1.texcoords.len() >= st.texcoords.len());
            assert(st1.normals.len() >= st.normals.len());
            assert forall|b: int, j: int, k: int|
                0 <= b < st1.buckets.len() && 0 <= j < st1.buckets[b].faces.len() && 0 <= k
                    < st1.buckets[b].faces[j].len() implies spec_corner_bounded(
                #[trigger] st1.buckets[b].faces[j][k],
                st1.positions.len() as int,
                st1.texcoords.len() as int,
                st1.normals.len() as int,
            ) by {
                assert(spec_corner_bounded(
                    st.buckets[b].faces[j][k],
                    st.positions.len() as int,
                    st.texcoords.len() as int,
                    st.normals.len() as int,
                ));
            }
        }
    }
}

proof fn obj_fold_preserves_bounds(lines: Seq<Seq<char>>, i: int, st: ObjState, tri: bool)
    requires
        spec_state_bounded(st),
        obj_fold(lines, i, st, tri) is Ok,
    ensures
        spec_state_bounded(obj_fold(lines, i, st, tri)->Ok_0),
    decreases lines.len() - i,
{
    if 0 <= i < lines.len() {
        obj_step_preserves_bounds(st, tri, lines[i], i + 1);
        obj_fold_preserves_bounds(lines, i + 1, obj_step(st, tri, lines[i], i + 1)->Ok_0, tri);
    }
}

/// Indices only ever reference already-defined entries: every face corner
/// of a state the parser reaches stays inside the coordinate arrays it
/// collected, so forward references never survive parsing.
pub proof fn lemma_parsed_corners_in_range(text: Seq<char>, tri: bool)
    requires
        spec_parse_obj(text, tri) is Ok,
    ensures
        spec_state_bounded(spec_parse_obj(text, tri)->Ok_0),
{
    assert(spec_state_bounded(obj_init()));
    obj_fold_preserves_bounds(split_lines(text), 0, obj_init(), tri);
}

} // verus!
