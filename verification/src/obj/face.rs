//! Face-vertex tokens and directive values: the index grammar `p`, `p/t`,
//! `p//n`, `p/t/n`, with 1-based and negative-relative index resolution.

use vstd::prelude::*;

use crate::chars::{chars_to_string, str_to_chars};
use crate::lex::{copy_range, find2, find2_eq, int_token_val, is_int_token, parse_int_chars, trim,
    trim_chars};
use crate::obj::types::{FaceVertex, IndexLabel, ObjError, ObjErrorKind, SpecObjErrKind, err_view, kind_view};

verus! {

/// The 0-based entry that the 1-based or negative OBJ index `v` names
/// among `count` entries: positive indices count from one, negative ones
/// count back from the end.
pub open spec fn spec_resolved(v: int, count: int) -> int {
    if v > 0 {
        v - 1
    } else {
        count + v
    }
}

/// Why the index field `t` is rejected against `count` defined entries,
/// if it is; the checks run in this order.
pub open spec fn index_err(t: Seq<char>, count: int, label: IndexLabel) -> Option<
    SpecObjErrKind,
> {
    if !(is_int_token(t) && i64::MIN <= int_token_val(t) <= i64::MAX) {
        Some(SpecObjErrKind::BadIndexNumber(label, t))
    } else if int_token_val(t) == 0 {
        Some(SpecObjErrKind::ZeroIndex(label))
    } else if count == 0 {
        Some(SpecObjErrKind::IndexBeforeData(label, t))
    } else if !(0 <= spec_resolved(int_token_val(t), count) < count) {
        Some(SpecObjErrKind::IndexOutOfRange(label, t, count))
    } else {
        None
    }
}

/// Resolves one index field against `count` entries defined so far.
pub fn parse_obj_index(raw: &str, count: usize, line_number: usize, label: IndexLabel) -> (r:
    Result<usize, ObjError>)
    ensures
        r is Ok <==> index_err(raw@, count as int, label) is None,
        r matches Ok(i) ==> i == spec_resolved(int_token_val(raw@), count as int),
        r matches Err(e) ==> err_view(e) == (
            line_number as int,
            index_err(raw@, count as int, label)->0,
        ),
{
    let chars = str_to_chars(raw);
    let parsed: i64 = match parse_int_chars(chars.as_slice()) {
        Some(v) => v,
        None => {
            return Err(
                ObjError {
                    line: line_number,
                    kind: ObjErrorKind::BadIndexNumber { label, token: raw.to_owned() },
                },
            );
        },
    };
    if parsed == 0 {
        return Err(ObjError { line: line_number, kind: ObjErrorKind::ZeroIndex { label } });
    }
    if count == 0 {
        return Err(
            ObjError {
                line: line_number,
                kind: ObjErrorKind::IndexBeforeData { label, token: raw.to_owned() },
            },
        );
    }
    let resolved: i128 = if parsed > 0 {
        parsed as i128 - 1
    } else {
        count as i128 + parsed as i128
    };
    if resolved < 0 || resolved >= count as i128 {
        return Err(
            ObjError {
                line: line_number,
                kind: ObjErrorKind::IndexOutOfRange { label, token: raw.to_owned(), count },
            },
        );
    }
    Ok(resolved as usize)
}

/// An index token whose value is in range always resolves: a positive
/// value `v` names entry `v - 1`, and a negative one names entry
/// `count + v`.
pub proof fn lemma_in_range_index_accepted(t: Seq<char>, count: int, label: IndexLabel)
    requires
        is_int_token(t),
        i64::MIN <= int_token_val(t) <= i64::MAX,
        int_token_val(t) != 0,
        count > 0,
        int_token_val(t) > 0 ==> int_token_val(t) <= count,
        int_token_val(t) < 0 ==> count + int_token_val(t) >= 0,
    ensures
        index_err(t, count, label) is None,
        int_token_val(t) > 0 ==> spec_resolved(int_token_val(t), count) == int_token_val(t) - 1,
        int_token_val(t) < 0 ==> spec_resolved(int_token_val(t), count) == count + int_token_val(
            t,
        ),
{
}

/// The position of the first `/` of a face-vertex token, or its end.
pub open spec fn fv_s1(t: Seq<char>) -> int {
    find2(t, 0, '/', '/')
}

/// The position of the second `/`, or the end.
pub open spec fn fv_s2(t: Seq<char>) -> int {
    find2(t, fv_s1(t) + 1, '/', '/')
}

/// The position of the third `/`, or the end.
pub open spec fn fv_s3(t: Seq<char>) -> int {
    find2(t, fv_s2(t) + 1, '/', '/')
}

/// The position field: everything before the first `/`.
pub open spec fn fv_f0(t: Seq<char>) -> Seq<char> {
    t.take(fv_s1(t))
}

/// The token has a second field.
pub open spec fn fv_has1(t: Seq<char>) -> bool {
    fv_s1(t) < t.len()
}

/// The texture-coordinate field, between the first and second `/`.
pub open spec fn fv_f1(t: Seq<char>) -> Seq<char> {
    t.subrange(fv_s1(t) + 1, fv_s2(t))
}

/// The token has a third field.
pub open spec fn fv_has2(t: Seq<char>) -> bool {
    fv_has1(t) && fv_s2(t) < t.len()
}

/// The normal field, between the second `/` and the third `/` or the end.
pub open spec fn fv_f2(t: Seq<char>) -> Seq<char> {
    t.subrange(fv_s2(t) + 1, fv_s3(t))
}

/// The token holds more than three fields.
pub open spec fn fv_too_many(t: Seq<char>) -> bool {
    fv_has2(t) && fv_s3(t) < t.len()
}

/// Why the face-vertex token `t` is rejected against the given entry
/// counts, if it is; the checks run in this order.
pub open spec fn face_vertex_err(t: Seq<char>, np: int, ntex: int, nn: int) -> Option<
    SpecObjErrKind,
> {
    if fv_too_many(t) {
        Some(SpecObjErrKind::InvalidFaceToken(t))
    } else if fv_f0(t).len() == 0 {
        Some(SpecObjErrKind::MissingPositionIndex(t))
    } else if index_err(fv_f0(t), np, IndexLabel::Position) is Some {
        index_err(fv_f0(t), np, IndexLabel::Position)
    } else if fv_has1(t) && fv_f1(t).len() > 0 && index_err(
        fv_f1(t),
        ntex,
        IndexLabel::Texcoord,
    ) is Some {
        index_err(fv_f1(t), ntex, IndexLabel::Texcoord)
    } else if fv_has2(t) && fv_f2(t).len() > 0 && index_err(
        fv_f2(t),
        nn,
        IndexLabel::Normal,
    ) is Some {
        index_err(fv_f2(t), nn, IndexLabel::Normal)
    } else {
        None
    }
}

/// The resolved corner that the face-vertex token `t` names.
pub open spec fn spec_face_vertex(t: Seq<char>, np: int, ntex: int, nn: int) -> (
    int,
    Option<int>,
    Option<int>,
) {
    (
        spec_resolved(int_token_val(fv_f0(t)), np),
        if fv_has1(t) && fv_f1(t).len() > 0 {
            Some(spec_resolved(int_token_val(fv_f1(t)), ntex))
        } else {
            None
        },
        if fv_has2(t) && fv_f2(t).len() > 0 {
            Some(spec_resolved(int_token_val(fv_f2(t)), nn))
        } else {
            None
        },
    )
}

/// Parses one face-vertex token `p`, `p/t`, `p//n` or `p/t/n` and resolves
/// its indices against the entries defined so far.
pub fn parse_face_vertex(
    token: &str,
    line_number: usize,
    positions_len: usize,
    texcoords_len: usize,
    normals_len: usize,
) -> (r: Result<FaceVertex, ObjError>)
    ensures
        r is Ok <==> face_vertex_err(
            token@,
            positions_len as int,
            texcoords_len as int,
            normals_len as int,
        ) is None,
        r matches Ok(fv) ==> {
            let m = spec_face_vertex(
                token@,
                positions_len as int,
                texcoords_len as int,
                normals_len as int,
            );
            &&& fv.0 == m.0
            &&& (fv.1 is Some <==> m.1 is Some)
            &&& (fv.1 matches Some(v) ==> m.1 == Some(v as int))
            &&& (fv.2 is Some <==> m.2 is Some)
            &&& (fv.2 matches Some(v) ==> m.2 == Some(v as int))
        },
        r matches Err(e) ==> err_view(e) == (
            line_number as int,
            face_vertex_err(
                token@,
                positions_len as int,
                texcoords_len as int,
                normals_len as int,
            )->0,
        ),
{
    let chars = str_to_chars(token);
    let n = chars.len();
    let s1 = scan_slash(chars.as_slice(), 0);
    proof {
        assert(s1 == fv_s1(token@));
    }
    let s2 = if s1 < n {
        scan_slash(chars.as_slice(), s1 + 1)
    } else {
        n
    };
    proof {
        if s1 < n {
            assert(s2 == fv_s2(token@));
        }
    }
    let s3 = if s1 < n && s2 < n {
        scan_slash(chars.as_slice(), s2 + 1)
    } else {
        n
    };
    proof {
        if s1 < n && s2 < n {
            assert(s3 == fv_s3(token@));
        }
    }
    if s1 < n && s2 < n && s3 < n {
        return Err(
            ObjError {
                line: line_number,
                kind: ObjErrorKind::InvalidFaceToken { token: token.to_owned() },
            },
        );
    }
    if s1 == 0 {
        return Err(
            ObjError {
                line: line_number,
                kind: ObjErrorKind::MissingPositionIndex { token: token.to_owned() },
            },
        );
    }
    let f0 = chars_to_string(copy_range(chars.as_slice(), 0, s1).as_slice());
    proof {
        assert(f0@ =~= fv_f0(token@));
    }
    let position_index = match parse_obj_index(
        f0.as_str(),
        positions_len,
        line_number,
        IndexLabel::Position,
    ) {
        Ok(i) => i,
        Err(e) => {
            return Err(e);
        },
    };

    let texcoord_index: Option<usize> = if s1 < n && s2 - s1 > 1 {
        let f1 = chars_to_string(copy_range(chars.as_slice(), s1 + 1, s2).as_slice());
        proof {
            assert(f1@ =~= fv_f1(token@));
        }
        match parse_obj_index(f1.as_str(), texcoords_len, line_number, IndexLabel::Texcoord) {
            Ok(i) => Some(i),
            Err(e) => {
                return Err(e);
            },
        }
    } else {
        proof {
            if fv_has1(token@) {
                assert(fv_f1(token@).len() == 0);
            }
        }
        None
    };

    let normal_index: Option<usize> = if s1 < n && s2 < n && s3 - s2 > 1 {
        let f2 = chars_to_string(copy_range(chars.as_slice(), s2 + 1, s3).as_slice());
        proof {
            assert(f2@ =~= fv_f2(token@));
        }
        match parse_obj_index(f2.as_str(), normals_len, line_number, IndexLabel::Normal) {
            Ok(i) => Some(i),
            Err(e) => {
                return Err(e);
            },
        }
    } else {
        proof {
            if fv_has2(token@) {
                assert(fv_f2(token@).len() == 0);
            }
        }
        None
    };

    Ok((position_index, texcoord_index, normal_index))
}

/// Finds the next `/` at or past `from`, or the end of `t`.
fn scan_slash(t: &[char], from: usize) -> (r: usize)
    requires
        from <= t@.len(),
    ensures
        r == find2(t@, from as int, '/', '/'),
        from <= r <= t@.len(),
{
    let n = t.len();
    let mut j = from;
    while j < n && t[j] != '/'
        invariant
            from <= j <= n,
            n == t@.len(),
            forall|k: int| from <= k < j ==> t@[k] != '/',
        decreases n - j,
    {
        j = j + 1;
    }
    proof {
        find2_eq(t@, from as int, j as int, '/', '/');
    }
    j
}

/// What `directive_value` extracts from `line` for `directive`: the rest
/// of the line after the directive word, trimmed, if it is not empty.
pub open spec fn directive_value_spec(line: Seq<char>, directive: Seq<char>) -> Option<
    Seq<char>,
> {
    if line.len() >= directive.len() && line.take(directive.len() as int) == directive {
        let rest = trim(line.skip(directive.len() as int));
        if rest.len() > 0 {
            Some(rest)
        } else {
            None
        }
    } else {
        None
    }
}

/// Extracts the required value of `directive` from a line that starts with
/// it: the rest of the line, trimmed.
pub fn directive_value(line: &str, directive: &str, line_number: usize) -> (r: Result<
    String,
    ObjError,
>)
    ensures
        r is Ok <==> directive_value_spec(line@, directive@) is Some,
        r matches Ok(v) ==> Some(v@) == directive_value_spec(line@, directive@),
        r matches Err(e) ==> err_view(e) == (
            line_number as int,
            SpecObjErrKind::MissingDirectiveValue(directive@),
        ),
{
    let lc = str_to_chars(line);
    let dc = str_to_chars(directive);
    let n = lc.len();
    let dn = dc.len();
    if n < dn {
        return Err(
            ObjError {
                line: line_number,
                kind: ObjErrorKind::MissingDirectiveValue { directive: directive.to_owned() },
            },
        );
    }
    let mut i: usize = 0;
    while i < dn
        invariant
            0 <= i <= dn <= n,
            n == lc@.len(),
            dn == dc@.len(),
            lc@ == line@,
            dc@ == directive@,
            forall|k: int| 0 <= k < i ==> lc@[k] == dc@[k],
        decreases dn - i,
    {
        if lc[i] != dc[i] {
            proof {
                assert(line@.take(dn as int)[i as int] != directive@[i as int]);
            }
            return Err(
                ObjError {
                    line: line_number,
                    kind: ObjErrorKind::MissingDirectiveValue { directive: directive.to_owned() },
                },
            );
        }
        i = i + 1;
    }
    proof {
        assert(line@.take(dn as int) =~= directive@);
    }
    let rest = copy_range(lc.as_slice(), dn, n);
    proof {
        assert(rest@ =~= line@.skip(dn as int));
    }
    let trimmed = trim_chars(rest.as_slice());
    if trimmed.len() == 0 {
        return Err(
            ObjError {
                line: line_number,
                kind: ObjErrorKind::MissingDirectiveValue { directive: directive.to_owned() },
            },
        );
    }
    Ok(chars_to_string(trimmed.as_slice()))
}

/// The tokens of `parts` from position `i` up to the first one that opens
/// a trailing comment.
pub open spec fn values_until_comment(parts: Seq<Seq<char>>, i: int) -> Seq<Seq<char>>
    decreases parts.len() - i,
{
    if i < 0 || i >= parts.len() || (parts[i].len() > 0 && parts[i][0] == '#') {
        Seq::empty()
    } else {
        seq![parts[i]] + values_until_comment(parts, i + 1)
    }
}

/// Collects the values of `directive` from the already tokenized `parts`:
/// every token after the directive word up to an inline `#` comment.
pub fn collect_directive_values(parts: &Vec<String>, directive: &str, line_number: usize) -> (r:
    Result<Vec<String>, ObjError>)
    ensures
        r matches Ok(vs) ==> {
            &&& parts.deep_view().len() > 0
            &&& parts.deep_view()[0] == directive@
            &&& vs.deep_view() == values_until_comment(parts.deep_view(), 1)
            &&& vs.deep_view().len() > 0
        },
        r matches Err(e) ==> e.line == line_number,
        r matches Err(e) ==> (kind_is_expected_directive(e, directive@) <==> !(
        parts.deep_view().len() > 0 && parts.deep_view()[0] == directive@)),
        parts.deep_view().len() > 0 && parts.deep_view()[0] == directive@ ==> (r matches Err(e)
            ==> kind_view(e.kind) == SpecObjErrKind::MissingDirectiveValue(directive@)),
        r is Err <==> !(parts.deep_view().len() > 0 && parts.deep_view()[0] == directive@
            && values_until_comment(parts.deep_view(), 1).len() > 0),
{
    if parts.len() == 0 || !str_eq(&parts[0], directive) {
        return Err(
            ObjError {
                line: line_number,
                kind: ObjErrorKind::ExpectedDirective { directive: directive.to_owned() },
            },
        );
    }
    let mut values: Vec<String> = Vec::new();
    let mut i: usize = 1;
    proof {
        assert(values.deep_view() =~= Seq::<Seq<char>>::empty());
    }
    let n = parts.len();
    let mut stopped = false;
    while !stopped && i < n
        invariant
            1 <= i <= n,
            n == parts.deep_view().len(),
            values_until_comment(parts.deep_view(), 1) == values.deep_view() + (
            if stopped {
                Seq::<Seq<char>>::empty()
            } else {
                values_until_comment(parts.deep_view(), i as int)
            }),
        decreases n - i + (if stopped { 0int } else { 1int }),
    {
        let p = &parts[i];
        if starts_with_hash(p) {
            stopped = true;
        } else {
            let ghost prev = values.deep_view();
            values.push(p.clone());
            proof {
                assert(values.deep_view() =~= prev + seq![parts.deep_view()[i as int]]);
            }
            i = i + 1;
        }
    }
    proof {
        if !stopped {
            assert(values_until_comment(parts.deep_view(), i as int) =~= Seq::<
                Seq<char>,
            >::empty());
        }
        assert(values.deep_view() =~= values_until_comment(parts.deep_view(), 1));
    }
    if values.len() == 0 {
        return Err(
            ObjError {
                line: line_number,
                kind: ObjErrorKind::MissingDirectiveValue { directive: directive.to_owned() },
            },
        );
    }
    Ok(values)
}

/// The error carries an `ExpectedDirective` kind for `directive`.
pub open spec fn kind_is_expected_directive(e: ObjError, directive: Seq<char>) -> bool {
    kind_view(e.kind) == SpecObjErrKind::ExpectedDirective(directive)
}

/// The token opens a trailing comment.
fn starts_with_hash(p: &String) -> (r: bool)
    ensures
        r == (p@.len() > 0 && p@[0] == '#'),
{
    let c = p.as_str();
    if c.unicode_len() == 0 {
        false
    } else {
        c.get_char(0) == '#'
    }
}

/// Compares a string with a string slice character by character.
pub fn str_eq(a: &String, b: &str) -> (r: bool)
    ensures
        r == (a@ == b@),
{
    let ac = str_to_chars(a.as_str());
    let bc = str_to_chars(b);
    let n = ac.len();
    if n != bc.len() {
        proof {
            assert(a@.len() != b@.len());
        }
        return false;
    }
    let mut i: usize = 0;
    while i < n
        invariant
            0 <= i <= n,
            n == ac@.len() == bc@.len(),
            ac@ == a@,
            bc@ == b@,
            forall|k: int| 0 <= k < i ==> ac@[k] == bc@[k],
        decreases n - i,
    {
        if ac[i] != bc[i] {
            return false;
        }
        i = i + 1;
    }
    proof {
        assert(a@ =~= b@);
    }
    true
}

} // verus!
