//! The MTL material parser: `newmtl` opens a record, the map directives
//! set texture paths on it, and unrecognized directives are ignored.

use vstd::prelude::*;

use crate::chars::{chars_eq_str, chars_to_string, str_to_chars};
use crate::lex::{split_lines, split_text_lines, split_ws, trim, trim_chars, tokenize};
use crate::obj::face::directive_value_spec;
use crate::obj::face::str_eq;
use crate::obj::face::directive_value;
use crate::obj::types::{ObjError, ObjErrorKind, ObjMaterialData, SpecObjErrKind, err_view};

verus! {

/// A material record as the contracts speak of it: each string as a
/// character sequence.
pub struct SpecMat {
    pub name: Seq<char>,
    pub diffuse: Option<Seq<char>>,
    pub specular: Option<Seq<char>>,
    pub normal: Option<Seq<char>>,
}

/// The `SpecMat` shape of a material record.
pub open spec fn mat_view(m: ObjMaterialData) -> SpecMat {
    SpecMat {
        name: m.name@,
        diffuse: match m.diffuse_texture {
            Some(s) => Some(s@),
            None => None,
        },
        specular: match m.specular_texture {
            Some(s) => Some(s@),
            None => None,
        },
        normal: match m.normal_texture {
            Some(s) => Some(s@),
            None => None,
        },
    }
}

/// The shapes of a vector of material records.
pub open spec fn mats_view(v: Seq<ObjMaterialData>) -> Seq<SpecMat> {
    Seq::new(v.len(), |i: int| mat_view(v[i]))
}

/// The parser state between lines: finished records, and the record that
/// the last `newmtl` opened, if any.
pub struct MtlState {
    pub done: Seq<SpecMat>,
    pub current: Option<SpecMat>,
}

/// What one line does to the parser state, or the error it raises.
pub open spec fn mtl_step(st: MtlState, line: Seq<char>, lineno: int) -> Result<
    MtlState,
    (int, SpecObjErrKind),
> {
    let t = trim(line);
    if t.len() == 0 || t[0] == '#' {
        Ok(st)
    } else {
        let parts = split_ws(t);
        if parts.len() == 0 {
            Ok(st)
        } else if parts[0] == "newmtl"@ {
            match directive_value_spec(t, "newmtl"@) {
                Some(v) => Ok(
                    MtlState {
                        done: match st.current {
                            Some(c) => st.done.push(c),
                            None => st.done,
                        },
                        current: Some(
                            SpecMat { name: v, diffuse: None, specular: None, normal: None },
                        ),
                    },
                ),
                None => Err((lineno, SpecObjErrKind::MissingDirectiveValue("newmtl"@))),
            }
        } else if parts[0] == "map_Kd"@ {
            match directive_value_spec(t, "map_Kd"@) {
                Some(v) => Ok(
                    MtlState {
                        done: st.done,
                        current: match st.current {
                            Some(c) => Some(SpecMat { diffuse: Some(v), ..c }),
                            None => None,
                        },
                    },
                ),
                None => Err((lineno, SpecObjErrKind::MissingDirectiveValue("map_Kd"@))),
            }
        } else if parts[0] == "map_Ks"@ {
            match directive_value_spec(t, "map_Ks"@) {
                Some(v) => Ok(
                    MtlState {
                        done: st.done,
                        current: match st.current {
                            Some(c) => Some(SpecMat { specular: Some(v), ..c }),
                            None => None,
                        },
                    },
                ),
                None => Err((lineno, SpecObjErrKind::MissingDirectiveValue("map_Ks"@))),
            }
        } else if parts[0] == "map_Bump"@ {
            match directive_value_spec(t, "map_Bump"@) {
                Some(v) => Ok(
                    MtlState {
                        done: st.done,
                        current: match st.current {
                            Some(c) => Some(SpecMat { normal: Some(v), ..c }),
                            None => None,
                        },
                    },
                ),
                None => Err((lineno, SpecObjErrKind::MissingDirectiveValue("map_Bump"@))),
            }
        } else if parts[0] == "bump"@ {
            match directive_value_spec(t, "bump"@) {
                Some(v) => Ok(
                    MtlState {
                        done: st.done,
                        current: match st.current {
                            Some(c) => Some(SpecMat { normal: Some(v), ..c }),
                            None => None,
                        },
                    },
                ),
                None => Err((lineno, SpecObjErrKind::MissingDirectiveValue("bump"@))),
            }
        } else {
            Ok(st)
        }
    }
}

/// Folds `mtl_step` over the lines from position `i` on.
pub open spec fn mtl_fold(lines: Seq<Seq<char>>, i: int, st: MtlState) -> Result<
    MtlState,
    (int, SpecObjErrKind),
>
    decreases lines.len() - i,
{
    if i < 0 || i >= lines.len() {
        Ok(st)
    } else {
        match mtl_step(st, lines[i], i + 1) {
            Ok(st2) => mtl_fold(lines, i + 1, st2),
            Err(e) => Err(e),
        }
    }
}

/// The records of an MTL text: the fold over its lines, with the open
/// record flushed at the end.
pub open spec fn spec_parse_mtl(text: Seq<char>) -> Result<Seq<SpecMat>, (int, SpecObjErrKind)> {
    match mtl_fold(
        split_lines(text),
        0,
        MtlState { done: Seq::empty(), current: None },
    ) {
        Ok(st) => Ok(
            match st.current {
                Some(c) => st.done.push(c),
                None => st.done,
            },
        ),
        Err(e) => Err(e),
    }
}

/// Parses MTL text into its ordered material records.
pub fn parse_mtl_text(text: &str) -> (r: Result<Vec<ObjMaterialData>, ObjError>)
    ensures
        r is Ok <==> spec_parse_mtl(text@) is Ok,
        r matches Ok(ms) ==> Ok::<_, (int, SpecObjErrKind)>(mats_view(ms@)) == spec_parse_mtl(
            text@,
        ),
        r matches Err(e) ==> Err::<Seq<SpecMat>, _>(err_view(e)) == spec_parse_mtl(text@),
{
    let chars = str_to_chars(text);
    let lines = split_text_lines(chars.as_slice());
    let ghost lv = lines.deep_view();

    let mut materials: Vec<ObjMaterialData> = Vec::new();
    let mut current: Option<ObjMaterialData> = None;
    let n = lines.len();
    let mut i: usize = 0;
    proof {
        assert(mats_view(materials@) =~= Seq::<SpecMat>::empty());
    }
    while i < n
        invariant
            0 <= i <= n,
            n == lv.len(),
            lv == lines.deep_view(),
            lv == split_lines(text@),
            mtl_fold(lv, 0, MtlState { done: Seq::empty(), current: None }) == mtl_fold(
                lv,
                i as int,
                MtlState { done: mats_view(materials@), current: cur_view(current) },
            ),
        decreases n - i,
    {
        let line_number = i + 1;
        let ghost st0 = MtlState { done: mats_view(materials@), current: cur_view(current) };
        proof {
            assert(lines@[i as int]@ =~= lv[i as int]);
        }
        let lt = trim_chars(lines[i].as_slice());
        if lt.len() > 0 && !(lt[0] == '#') {
            let toks = tokenize(lt.as_slice());
            if toks.len() > 0 {
                proof {
                    assert(toks@[0]@ =~= toks.deep_view()[0]);
                    assert(toks.deep_view() == split_ws(trim(lv[i as int])));
                }
                let key = &toks[0];
                let line_str = chars_to_string(lt.as_slice());
                if chars_eq_str(key.as_slice(), "newmtl") {
                    let v = match directive_value(line_str.as_str(), "newmtl", line_number) {
                        Ok(v) => v,
                        Err(e) => {
                            return Err(e);
                        },
                    };
                    if let Some(c) = current {
                        let ghost prev = mats_view(materials@);
                        materials.push(c);
                        proof {
                            assert(mats_view(materials@) =~= prev.push(mat_view(c)));
                        }
                    }
                    current = Some(
                        ObjMaterialData {
                            name: v,
                            diffuse_texture: None,
                            specular_texture: None,
                            normal_texture: None,
                        },
                    );
                } else if chars_eq_str(key.as_slice(), "map_Kd") {
                    let v = match directive_value(line_str.as_str(), "map_Kd", line_number) {
                        Ok(v) => v,
                        Err(e) => {
                            return Err(e);
                        },
                    };
                    current = match current {
                        Some(mut m) => {
                            m.diffuse_texture = Some(v);
                            Some(m)
                        },
                        None => None,
                    };
                } else if chars_eq_str(key.as_slice(), "map_Ks") {
                    let v = match directive_value(line_str.as_str(), "map_Ks", line_number) {
                        Ok(v) => v,
                        Err(e) => {
                            return Err(e);
                        },
                    };
                    current = match current {
                        Some(mut m) => {
                            m.specular_texture = Some(v);
                            Some(m)
                        },
                        None => None,
                    };
                } else if chars_eq_str(key.as_slice(), "map_Bump") {
                    let v = match directive_value(line_str.as_str(), "map_Bump", line_number) {
                        Ok(v) => v,
                        Err(e) => {
                            return Err(e);
                        },
                    };
                    current = match current {
                        Some(mut m) => {
                            m.normal_texture = Some(v);
                            Some(m)
                        },
                        None => None,
                    };
                } else if chars_eq_str(key.as_slice(), "bump") {
                    let v = match directive_value(line_str.as_str(), "bump", line_number) {
                        Ok(v) => v,
                        Err(e) => {
                            return Err(e);
                        },
                    };
                    current = match current {
                        Some(mut m) => {
                            m.normal_texture = Some(v);
                            Some(m)
                        },
                        None => None,
                    };
                }
            }
        }
        proof {
            assert(mtl_step(st0, lv[i as int], i + 1) == Ok::<MtlState, (int, SpecObjErrKind)>(
                MtlState { done: mats_view(materials@), current: cur_view(current) },
            ));
        }
        i = i + 1;
    }
    if let Some(c) = current {
        let ghost prev = mats_view(materials@);
        materials.push(c);
        proof {
            assert(mats_view(materials@) =~= prev.push(mat_view(c)));
        }
    }
    Ok(materials)
}

/// The `SpecMat` shape of the open record.
pub open spec fn cur_view(c: Option<ObjMaterialData>) -> Option<SpecMat> {
    match c {
        Some(m) => Some(mat_view(m)),
        None => None,
    }
}

/// Looks a material up by name: among records with that name the last
/// one wins, keeping collisions across concatenated files deterministic.
pub fn find_material_id(materials: &Vec<ObjMaterialData>, name: &str) -> (r: Option<usize>)
    ensures
        r matches Some(i) ==> {
            &&& i < materials@.len()
            &&& materials@[i as int].name@ == name@
            &&& forall|j: int| i < j < materials@.len() ==> materials@[j].name@ != name@
        },
        r is None ==> forall|j: int| 0 <= j < materials@.len() ==> materials@[j].name@ != name@,
{
    let n = materials.len();
    let mut j = n;
    while j > 0
        invariant
            0 <= j <= n,
            n == materials@.len(),
            forall|k: int| j <= k < n ==> materials@[k].name@ != name@,
        decreases j,
    {
        if str_eq(&materials[j - 1].name, name) {
            return Some(j - 1);
        }
        j = j - 1;
    }
    None
}

} // verus!
