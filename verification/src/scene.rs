//! Scene-level rules: texture kinds and their shader names, resolution of
//! material texture paths, the per-face shading step, and the types the
//! program shell shares with the library.

use vstd::prelude::*;

use crate::chars::{chars_to_string, str_to_chars};
use crate::obj::types::ObjMaterialData;

verus! {

/// The role of a texture map, a closed set of variants.
#[derive(Clone, Copy, Debug, Eq, PartialEq, Structural)]
pub enum TextureKind {
    Diffuse,
    Specular,
    Normal,
}

impl TextureKind {
    /// The prefix of the shader uniform that samples this kind of map.
    pub fn shader_uniform_prefix(&self) -> (r: &'static str)
        ensures
            self is Diffuse ==> r@ == "texture_diffuse"@,
            self is Specular ==> r@ == "texture_specular"@,
            self is Normal ==> r@ == "texture_normal"@,
    {
        match self {
            TextureKind::Diffuse => "texture_diffuse",
            TextureKind::Specular => "texture_specular",
            TextureKind::Normal => "texture_normal",
        }
    }
}

/// A resolved texture reference of a mesh.
#[derive(Clone, Debug, Eq, PartialEq)]
pub struct SceneTextureRef {
    pub path: String,
    pub kind: TextureKind,
}

/// Why no diffuse texture path could be resolved.
#[derive(Clone, Debug, Eq, PartialEq)]
pub enum SceneError {
    /// Without a caller-supplied fallback, the material's diffuse map must
    /// name a BMP file.
    DiffuseNotBmp { path: String },
    /// Neither a fallback nor a material diffuse map was available.
    NoDiffuseAvailable,
}

/// What the program shell hands the library: the model and texture paths
/// named on the command line.
#[derive(Clone, Debug, Eq, PartialEq)]
pub struct AppConfig {
    pub model_path: String,
    pub texture_path: String,
}

/// An error of the program, wrapping the message of the stage it came
/// from.
#[derive(Clone, Debug, Eq, PartialEq)]
pub enum AppError {
    Cli(String),
    SceneBuild(String),
    Renderer(String),
}

/// Joining `rel` onto `base`, as pushing onto a Unix path does it: an
/// absolute `rel` stands alone; otherwise a separator is added unless
/// `base` is empty or already ends with one.
pub open spec fn spec_join_path(base: Seq<char>, rel: Seq<char>) -> Seq<char> {
    if rel.len() > 0 && rel[0] == '/' {
        rel
    } else if base.len() == 0 {
        rel
    } else if base[base.len() - 1] == '/' {
        base + rel
    } else {
        base + seq!['/'] + rel
    }
}

/// Joins a relative texture path onto the directory of the model file.
pub fn resolve_material_path(base_dir: &str, relative_path: &str) -> (r: String)
    ensures
        r@ == spec_join_path(base_dir@, relative_path@),
{
    let b = str_to_chars(base_dir);
    let rl = str_to_chars(relative_path);
    let mut out: Vec<char> = Vec::new();
    if rl.len() > 0 && rl[0] == '/' {
        return chars_to_string(rl.as_slice());
    }
    if b.len() == 0 {
        return chars_to_string(rl.as_slice());
    }
    let mut i: usize = 0;
    let bn = b.len();
    while i < bn
        invariant
            0 <= i <= bn,
            bn == b@.len(),
            out@ =~= b@.take(i as int),
        decreases bn - i,
    {
        out.push(b[i]);
        proof {
            assert(out@ =~= b@.take(i + 1));
        }
        i = i + 1;
    }
    proof {
        assert(out@ =~= b@);
    }
    if b[bn - 1] != '/' {
        out.push('/');
    }
    let mut j: usize = 0;
    let rn = rl.len();
    let ghost mid = out@;
    while j < rn
        invariant
            0 <= j <= rn,
            rn == rl@.len(),
            out@ =~= mid + rl@.take(j as int),
        decreases rn - j,
    {
        out.push(rl[j]);
        proof {
            assert(out@ =~= mid + rl@.take(j + 1));
        }
        j = j + 1;
    }
    proof {
        assert(out@ =~= spec_join_path(base_dir@, relative_path@));
    }
    chars_to_string(out.as_slice())
}

/// The position after the last `c` in `s`: 0 when `s` holds no `c`.
pub open spec fn after_last(s: Seq<char>, c: char) -> int
    decreases s.len(),
{
    if s.len() == 0 {
        0
    } else if s[s.len() - 1] == c {
        s.len() as int
    } else {
        after_last(s.drop_last(), c)
    }
}

pub proof fn after_last_eq(s: Seq<char>, c: char, j: int)
    requires
        0 <= j <= s.len(),
        forall|k: int| j <= k < s.len() ==> s[k] != c,
        j > 0 ==> s[j - 1] == c,
    ensures
        after_last(s, c) == j,
    decreases s.len(),
{
    if s.len() > 0 && s[s.len() - 1] != c {
        after_last_eq(s.drop_last(), c, j);
    }
}

/// The extension of a path, as the file system sees it: what follows the
/// last `.` of the name after the last `/`, provided something stands
/// before that `.`.
pub open spec fn spec_extension(path: Seq<char>) -> Option<Seq<char>> {
    let name = path.skip(after_last(path, '/'));
    let d = after_last(name, '.');
    if d <= 1 {
        None
    } else {
        Some(name.skip(d))
    }
}

/// Two characters are equal up to ASCII letter case.
pub open spec fn ascii_eq_ci(a: char, b: char) -> bool {
    ||| a == b
    ||| (65 <= a as u32 <= 90 && a as u32 + 32 == b as u32)
    ||| (65 <= b as u32 <= 90 && b as u32 + 32 == a as u32)
}

/// The path's extension matches `ext` up to ASCII letter case.
pub open spec fn spec_has_extension(path: Seq<char>, ext: Seq<char>) -> bool {
    match spec_extension(path) {
        Some(e) => e.len() == ext.len() && (forall|i: int|
            0 <= i < e.len() ==> ascii_eq_ci(e[i], ext[i])),
        None => false,
    }
}

/// The path names a BMP file: its extension is `bmp` in any letter case.
pub open spec fn spec_is_bmp(path: Seq<char>) -> bool {
    spec_has_extension(path, seq!['b', 'm', 'p'])
}

/// The position after the last occurrence of `c` in `v`, by scanning.
fn scan_after_last(v: &[char], c: char) -> (r: usize)
    ensures
        r == after_last(v@, c),
        r <= v@.len(),
{
    let n = v.len();
    let mut j = n;
    while j > 0 && v[j - 1] != c
        invariant
            0 <= j <= n,
            n == v@.len(),
            forall|k: int| j <= k < n ==> v@[k] != c,
        decreases j,
    {
        j = j - 1;
    }
    proof {
        after_last_eq(v@, c, j as int);
    }
    j
}

/// Decides `ascii_eq_ci`.
fn ascii_char_eq_ci(a: char, b: char) -> (r: bool)
    ensures
        r == ascii_eq_ci(a, b),
{
    let au = a as u32;
    let bu = b as u32;
    au == bu || (65 <= au && au <= 90 && au + 32 == bu) || (65 <= bu && bu <= 90 && bu + 32
        == au)
}

/// Decides whether the path's extension matches `ext` up to ASCII letter
/// case.
pub fn path_has_extension(path: &str, ext: &str) -> (r: bool)
    ensures
        r == spec_has_extension(path@, ext@),
{
    let p = str_to_chars(path);
    let ec = str_to_chars(ext);
    let n = p.len();
    let slash = scan_after_last(p.as_slice(), '/');
    let ghost name = path@.skip(slash as int);
    let mut nm: Vec<char> = Vec::new();
    let mut i = slash;
    while i < n
        invariant
            slash <= i <= n,
            n == p@.len(),
            p@ == path@,
            nm@ =~= path@.subrange(slash as int, i as int),
        decreases n - i,
    {
        nm.push(p[i]);
        proof {
            assert(nm@ =~= path@.subrange(slash as int, i + 1));
        }
        i = i + 1;
    }
    proof {
        assert(nm@ =~= name);
    }
    let d = scan_after_last(nm.as_slice(), '.');
    if d <= 1 {
        return false;
    }
    let m = nm.len();
    let k = ec.len();
    if m - d != k {
        return false;
    }
    proof {
        assert(name.skip(d as int).len() == k);
    }
    let mut q: usize = 0;
    while q < k
        invariant
            0 <= q <= k,
            k == ec@.len(),
            ec@ == ext@,
            nm@ == name,
            name == path@.skip(after_last(path@, '/')),
            1 < d,
            m == nm@.len(),
            d + k == m,
            d == after_last(name, '.'),
            forall|w: int| 0 <= w < q ==> ascii_eq_ci(name.skip(d as int)[w], ext@[w]),
        decreases k - q,
    {
        proof {
            assert(name.skip(d as int)[q as int] == nm@[d + q]);
        }
        if !ascii_char_eq_ci(nm[d + q], ec[q]) {
            return false;
        }
        q = q + 1;
    }
    true
}

/// Decides whether a path names a BMP file, in any letter case.
pub fn is_bmp_path(path: &str) -> (r: bool)
    ensures
        r == spec_is_bmp(path@),
{
    let r = path_has_extension(path, "bmp");
    proof {
        reveal_strlit("bmp");
        assert("bmp"@ =~= seq!['b', 'm', 'p']);
    }
    r
}

/// Joins a material texture path onto the model directory when it names a
/// BMP file, and withholds it otherwise.
pub fn resolve_optional_bmp_material_path(base_dir: &str, relative_path: &str) -> (r: Option<
    String,
>)
    ensures
        spec_is_bmp(relative_path@) ==> (r matches Some(p) && p@ == spec_join_path(
            base_dir@,
            relative_path@,
        )),
        !spec_is_bmp(relative_path@) ==> r is None,
{
    if is_bmp_path(relative_path) {
        Some(resolve_material_path(base_dir, relative_path))
    } else {
        None
    }
}

/// The shape of a `SceneError`, with its string as a character sequence.
pub enum SpecSceneErr {
    DiffuseNotBmp(Seq<char>),
    NoDiffuseAvailable,
}

/// The `SpecSceneErr` shape of a scene error.
pub open spec fn scene_err_view(e: SceneError) -> SpecSceneErr {
    match e {
        SceneError::DiffuseNotBmp { path } => SpecSceneErr::DiffuseNotBmp(path@),
        SceneError::NoDiffuseAvailable => SpecSceneErr::NoDiffuseAvailable,
    }
}

/// The diffuse texture that `resolve_diffuse_texture_path` picks: the
/// caller's fallback when one is given, else the material's BMP diffuse
/// map joined onto the model directory.
pub open spec fn spec_diffuse_choice(
    model_dir: Seq<char>,
    fallback: Seq<char>,
    diffuse: Option<Seq<char>>,
) -> Result<Seq<char>, SpecSceneErr> {
    if fallback.len() > 0 {
        Ok(fallback)
    } else {
        match diffuse {
            Some(d) => if d.len() == 0 {
                Err(SpecSceneErr::NoDiffuseAvailable)
            } else if !spec_is_bmp(d) {
                Err(SpecSceneErr::DiffuseNotBmp(d))
            } else {
                Ok(spec_join_path(model_dir, d))
            },
            None => Err(SpecSceneErr::NoDiffuseAvailable),
        }
    }
}

/// Picks the diffuse texture path for a mesh: the caller-supplied fallback
/// wins; otherwise the material's diffuse map is used, which must then
/// name a BMP file.
pub fn resolve_diffuse_texture_path(
    model_dir: &str,
    fallback_texture_path: &str,
    material: Option<&ObjMaterialData>,
) -> (r: Result<String, SceneError>)
    ensures
        ({
            let diffuse = match material {
                Some(m) => match m.diffuse_texture {
                    Some(d) => Some(d@),
                    None => None,
                },
                None => None,
            };
            let c = spec_diffuse_choice(model_dir@, fallback_texture_path@, diffuse);
            &&& (r is Ok <==> c is Ok)
            &&& (r matches Ok(p) ==> Some(p@) == Some(c->Ok_0))
            &&& (r matches Err(e) ==> Some(scene_err_view(e)) == Some(c->Err_0))
        }),
{
    if !fallback_texture_path.is_empty() {
        return Ok(fallback_texture_path.to_owned());
    }
    let diffuse: Option<&String> = match material {
        Some(m) => match &m.diffuse_texture {
            Some(d) => Some(d),
            None => None,
        },
        None => None,
    };
    match diffuse {
        Some(d) => {
            if d.as_str().is_empty() {
                Err(SceneError::NoDiffuseAvailable)
            } else if !is_bmp_path(d.as_str()) {
                Err(SceneError::DiffuseNotBmp { path: d.clone() })
            } else {
                Ok(resolve_material_path(model_dir, d.as_str()))
            }
        },
        None => Err(SceneError::NoDiffuseAvailable),
    }
}

/// The number of brightness steps of the face shading ramp.
pub open spec fn spec_ramp_period() -> int {
    11
}

/// The shading step of the triangle with ordinal `face_index`: the ramp
/// cycles through eleven steps, and the renderer maps step `s` to the
/// brightness `(s / 11) * 0.6 + 0.4`.
pub fn face_brightness_step(face_index: usize) -> (s: usize)
    ensures
        s == face_index as int % spec_ramp_period(),
        s < 11,
{
    face_index % 11
}

} // verus!
