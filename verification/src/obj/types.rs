//! The data types of the OBJ and MTL parsers, and their error type.

use vstd::prelude::*;

verus! {

/// One face corner: a resolved 0-based position index with optional
/// texture-coordinate and normal indices.
pub type FaceVertex = (usize, Option<usize>, Option<usize>);

/// Options of the OBJ parser.
#[derive(Clone, Copy, Debug, Default, Eq, PartialEq, Structural)]
pub struct ObjLoadOptions {
    /// Accept faces with more than three corners, to be triangulated
    /// before assembly; without it such a face is an error.
    pub triangulate: bool,
    /// Kept for callers that select a single shared index space; the
    /// parser resolves every index kind separately either way.
    pub single_index: bool,
}

/// One material record of an MTL file.
#[derive(Clone, Debug, Eq, PartialEq)]
pub struct ObjMaterialData {
    pub name: String,
    pub diffuse_texture: Option<String>,
    pub specular_texture: Option<String>,
    pub normal_texture: Option<String>,
}

/// The three numeric source tokens of a `v` or `vn` line, kept as they
/// were written.
#[derive(Clone, Debug, Eq, PartialEq)]
pub struct Coord3 {
    pub x: String,
    pub y: String,
    pub z: String,
}

/// The first two numeric source tokens of a `vt` line.
#[derive(Clone, Debug, Eq, PartialEq)]
pub struct Coord2 {
    pub u: String,
    pub v: String,
}

/// The faces gathered for one material context, in source order.
#[derive(Debug)]
pub struct FaceBucket {
    /// The `usemtl` name under which the faces were read, if any.
    pub material: Option<String>,
    /// Faces with resolved corner indices, each with at least three
    /// corners, kept whole for the triangulator.
    pub faces: Vec<Vec<FaceVertex>>,
}

/// Everything a pass over OBJ text yields: the raw coordinate tokens, the
/// per-material face buckets in first-use order, and the names of the
/// material files to load.
#[derive(Debug)]
pub struct ObjParseOutput {
    pub positions: Vec<Coord3>,
    pub normals: Vec<Coord3>,
    pub texcoords: Vec<Coord2>,
    pub buckets: Vec<FaceBucket>,
    pub mtl_files: Vec<String>,
}

/// Which index of a face-vertex token an error is about.
#[derive(Clone, Copy, Debug, Eq, PartialEq, Structural)]
pub enum IndexLabel {
    Position,
    Texcoord,
    Normal,
}

/// What went wrong on a line of OBJ or MTL text.
#[derive(Clone, Debug, Eq, PartialEq)]
pub enum ObjErrorKind {
    /// A face-vertex token holds more than three `/`-separated fields.
    InvalidFaceToken { token: String },
    /// A face-vertex token starts with `/`: no position index.
    MissingPositionIndex { token: String },
    /// An index field is not an integer that fits the machine.
    BadIndexNumber { label: IndexLabel, token: String },
    /// OBJ indices are 1-based, so index 0 never resolves.
    ZeroIndex { label: IndexLabel },
    /// An index was used before any entry of its kind was defined.
    IndexBeforeData { label: IndexLabel, token: String },
    /// An index resolves outside the entries defined so far.
    IndexOutOfRange { label: IndexLabel, token: String, count: usize },
    /// A numeric component is not a floating-point literal.
    BadNumericComponent { token: String },
    /// A `v`, `vn`, `vt` or `f` line holds too few components.
    MissingComponents { directive: String },
    /// A directive lacks its required value.
    MissingDirectiveValue { directive: String },
    /// A line was handed to a reader for another directive.
    ExpectedDirective { directive: String },
    /// A face has a corner count other than three while fan splitting is
    /// off.
    NonTriangularFace,
}

/// An error of the OBJ or MTL parser, tagged with its 1-based source line.
#[derive(Clone, Debug, Eq, PartialEq)]
pub struct ObjError {
    pub line: usize,
    pub kind: ObjErrorKind,
}

/// The shape of an `ObjErrorKind` with its strings as character sequences,
/// for use in contracts.
pub enum SpecObjErrKind {
    InvalidFaceToken(Seq<char>),
    MissingPositionIndex(Seq<char>),
    BadIndexNumber(IndexLabel, Seq<char>),
    ZeroIndex(IndexLabel),
    IndexBeforeData(IndexLabel, Seq<char>),
    IndexOutOfRange(IndexLabel, Seq<char>, int),
    BadNumericComponent(Seq<char>),
    MissingComponents(Seq<char>),
    MissingDirectiveValue(Seq<char>),
    ExpectedDirective(Seq<char>),
    NonTriangularFace,
}

/// The `SpecObjErrKind` shape of an error kind.
pub open spec fn kind_view(k: ObjErrorKind) -> SpecObjErrKind {
    match k {
        ObjErrorKind::InvalidFaceToken { token } => SpecObjErrKind::InvalidFaceToken(token@),
        ObjErrorKind::MissingPositionIndex { token } => SpecObjErrKind::MissingPositionIndex(
            token@,
        ),
        ObjErrorKind::BadIndexNumber { label, token } => SpecObjErrKind::BadIndexNumber(
            label,
            token@,
        ),
        ObjErrorKind::ZeroIndex { label } => SpecObjErrKind::ZeroIndex(label),
        ObjErrorKind::IndexBeforeData { label, token } => SpecObjErrKind::IndexBeforeData(
            label,
            token@,
        ),
        ObjErrorKind::IndexOutOfRange { label, token, count } => SpecObjErrKind::IndexOutOfRange(
            label,
            token@,
            count as int,
        ),
        ObjErrorKind::BadNumericComponent { token } => SpecObjErrKind::BadNumericComponent(
            token@,
        ),
        ObjErrorKind::MissingComponents { directive } => SpecObjErrKind::MissingComponents(
            directive@,
        ),
        ObjErrorKind::MissingDirectiveValue { directive } => SpecObjErrKind::MissingDirectiveValue(
            directive@,
        ),
        ObjErrorKind::ExpectedDirective { directive } => SpecObjErrKind::ExpectedDirective(
            directive@,
        ),
        ObjErrorKind::NonTriangularFace => SpecObjErrKind::NonTriangularFace,
    }
}

/// The view of an error: its line and the shape of its kind.
pub open spec fn err_view(e: ObjError) -> (int, SpecObjErrKind) {
    (e.line as int, kind_view(e.kind))
}

} // verus!
