//! Character-level lexing used by the OBJ and MTL parsers: whitespace
//! splitting, line splitting, trimming, and the grammars of integer and
//! floating-point source tokens.

use vstd::prelude::*;

verus! {

/// The characters with the Unicode `White_Space` property, the set that
/// `str::split_whitespace` and `str::trim` split and trim on.
pub open spec fn is_space(c: char) -> bool {
    ||| c == ' '
    ||| c == '\t'
    ||| c == '\n'
    ||| c == '\u{0B}'
    ||| c == '\u{0C}'
    ||| c == '\r'
    ||| c == '\u{85}'
    ||| c == '\u{A0}'
    ||| c == '\u{1680}'
    ||| ('\u{2000}' <= c && c <= '\u{200A}')
    ||| c == '\u{2028}'
    ||| c == '\u{2029}'
    ||| c == '\u{202F}'
    ||| c == '\u{205F}'
    ||| c == '\u{3000}'
}

/// Decides `is_space`.
pub fn space_char(c: char) -> (r: bool)
    ensures
        r == is_space(c),
{
    c == ' ' || c == '\t' || c == '\n' || c == '\u{0B}' || c == '\u{0C}' || c == '\r' || c
        == '\u{85}' || c == '\u{A0}' || c == '\u{1680}' || ('\u{2000}' <= c && c <= '\u{200A}')
        || c == '\u{2028}' || c == '\u{2029}' || c == '\u{202F}' || c == '\u{205F}' || c
        == '\u{3000}'
}

/// `s` without its leading whitespace.
pub open spec fn trim_start(s: Seq<char>) -> Seq<char>
    decreases s.len(),
{
    if s.len() == 0 || !is_space(s[0]) {
        s
    } else {
        trim_start(s.drop_first())
    }
}

/// `s` without its trailing whitespace.
pub open spec fn trim_end(s: Seq<char>) -> Seq<char>
    decreases s.len(),
{
    if s.len() == 0 || !is_space(s[s.len() - 1]) {
        s
    } else {
        trim_end(s.drop_last())
    }
}

/// `s` without leading and trailing whitespace, as `str::trim` leaves it.
pub open spec fn trim(s: Seq<char>) -> Seq<char> {
    trim_end(trim_start(s))
}

proof fn trim_start_is_subrange(s: Seq<char>, lo: int)
    requires
        0 <= lo <= s.len(),
        forall|i: int| 0 <= i < lo ==> is_space(s[i]),
        lo < s.len() ==> !is_space(s[lo]),
    ensures
        trim_start(s) =~= s.subrange(lo, s.len() as int),
    decreases s.len(),
{
    if s.len() == 0 {
    } else if lo == 0 {
    } else {
        trim_start_is_subrange(s.drop_first(), lo - 1);
        assert(s.drop_first().subrange(lo - 1, s.drop_first().len() as int) =~= s.subrange(
            lo,
            s.len() as int,
        ));
    }
}

proof fn trim_end_is_subrange(s: Seq<char>, hi: int)
    requires
        0 <= hi <= s.len(),
        forall|i: int| hi <= i < s.len() ==> is_space(s[i]),
        hi > 0 ==> !is_space(s[hi - 1]),
    ensures
        trim_end(s) =~= s.subrange(0, hi),
    decreases s.len(),
{
    if s.len() == 0 {
    } else if hi == s.len() {
    } else {
        trim_end_is_subrange(s.drop_last(), hi);
        assert(s.drop_last().subrange(0, hi) =~= s.subrange(0, hi));
    }
}

/// Copies `line` without its leading and trailing whitespace.
pub fn trim_chars(line: &[char]) -> (t: Vec<char>)
    ensures
        t@ == trim(line@),
{
    let n = line.len();
    let mut lo: usize = 0;
    while lo < n && space_char(line[lo])
        invariant
            0 <= lo <= n,
            n == line@.len(),
            forall|i: int| 0 <= i < lo ==> is_space(line@[i]),
        decreases n - lo,
    {
        lo = lo + 1;
    }
    proof {
        trim_start_is_subrange(line@, lo as int);
    }
    let mut hi: usize = n;
    while hi > lo && space_char(line[hi - 1])
        invariant
            lo <= hi <= n,
            n == line@.len(),
            forall|i: int| 0 <= i < lo ==> is_space(line@[i]),
            lo < n ==> !is_space(line@[lo as int]),
            forall|i: int| hi <= i < n ==> is_space(line@[i]),
        decreases hi,
    {
        hi = hi - 1;
    }
    let mut t: Vec<char> = Vec::new();
    let mut i: usize = lo;
    while i < hi
        invariant
            lo <= i <= hi <= n,
            n == line@.len(),
            t@ =~= line@.subrange(lo as int, i as int),
        decreases hi - i,
    {
        t.push(line[i]);
        proof {
            assert(t@ =~= line@.subrange(lo as int, i + 1));
        }
        i = i + 1;
    }
    proof {
        let st = trim_start(line@);
        assert(st =~= line@.subrange(lo as int, n as int));
        trim_end_is_subrange(st, hi - lo);
        assert(st.subrange(0, hi - lo) =~= line@.subrange(lo as int, hi as int));
    }
    t
}

/// The end of the whitespace-free token starting at `i`: the first index at
/// or past `i` holding whitespace, or the end of `s`.
pub open spec fn token_end(s: Seq<char>, i: int) -> int
    decreases s.len() - i,
{
    if i < 0 || i >= s.len() || is_space(s[i]) {
        i
    } else {
        token_end(s, i + 1)
    }
}

pub proof fn token_end_bounds(s: Seq<char>, i: int)
    requires
        0 <= i <= s.len(),
    ensures
        i <= token_end(s, i) <= s.len(),
        forall|k: int| i <= k < token_end(s, i) ==> !is_space(s[k]),
        token_end(s, i) < s.len() ==> is_space(s[token_end(s, i)]),
    decreases s.len() - i,
{
    if i < s.len() && !is_space(s[i]) {
        token_end_bounds(s, i + 1);
    }
}

/// The whitespace-separated tokens of `s` at or past position `i`.
pub open spec fn split_ws_from(s: Seq<char>, i: int) -> Seq<Seq<char>>
    decreases s.len() - i,
    via split_ws_from_decreases
{
    if i < 0 || i >= s.len() {
        Seq::empty()
    } else if is_space(s[i]) {
        split_ws_from(s, i + 1)
    } else {
        let j = token_end(s, i);
        seq![s.subrange(i, j)] + split_ws_from(s, j)
    }
}

#[via_fn]
proof fn split_ws_from_decreases(s: Seq<char>, i: int) {
    if 0 <= i < s.len() && !is_space(s[i]) {
        token_end_bounds(s, i + 1);
    }
}

/// The whitespace-separated tokens of `s`, as `str::split_whitespace`
/// yields them.
pub open spec fn split_ws(s: Seq<char>) -> Seq<Seq<char>> {
    split_ws_from(s, 0)
}

pub proof fn token_end_eq(s: Seq<char>, i: int, j: int)
    requires
        0 <= i <= j <= s.len(),
        forall|k: int| i <= k < j ==> !is_space(s[k]),
        j < s.len() ==> is_space(s[j]),
    ensures
        token_end(s, i) == j,
    decreases j - i,
{
    if i < j {
        token_end_eq(s, i + 1, j);
    }
}

/// Splits `line` into its whitespace-separated tokens.
pub fn tokenize(line: &[char]) -> (toks: Vec<Vec<char>>)
    ensures
        toks.deep_view() == split_ws(line@),
{
    let n = line.len();
    let mut toks: Vec<Vec<char>> = Vec::new();
    let mut i: usize = 0;
    proof {
        assert(toks.deep_view() =~= Seq::<Seq<char>>::empty());
    }
    while i < n
        invariant
            0 <= i <= n,
            n == line@.len(),
            split_ws(line@) == toks.deep_view() + split_ws_from(line@, i as int),
        decreases n - i,
    {
        if space_char(line[i]) {
            i = i + 1;
        } else {
            let start = i;
            let mut j = i;
            while j < n && !space_char(line[j])
                invariant
                    start <= j <= n,
                    n == line@.len(),
                    forall|k: int| start <= k < j ==> !is_space(line@[k]),
                decreases n - j,
            {
                j = j + 1;
            }
            proof {
                token_end_eq(line@, start as int, j as int);
            }
            let mut tok: Vec<char> = Vec::new();
            let mut k = start;
            while k < j
                invariant
                    start <= k <= j <= n,
                    n == line@.len(),
                    tok@ =~= line@.subrange(start as int, k as int),
                decreases j - k,
            {
                tok.push(line[k]);
                proof {
                    assert(tok@ =~= line@.subrange(start as int, k + 1));
                }
                k = k + 1;
            }
            let ghost prev_dv = toks.deep_view();
            toks.push(tok);
            proof {
                assert(tok.deep_view() =~= tok@);
                assert(toks.deep_view() =~= prev_dv + seq![tok@]);
            }
            i = j;
        }
    }
    proof {
        assert(toks.deep_view() + split_ws_from(line@, i as int) =~= toks.deep_view());
    }
    toks
}

/// The first line break at or past `i`: the index of the next `\n`, or the
/// end of `s`.
pub open spec fn line_break(s: Seq<char>, i: int) -> int
    decreases s.len() - i,
{
    if i < 0 || i >= s.len() || s[i] == '\n' {
        i
    } else {
        line_break(s, i + 1)
    }
}

pub proof fn line_break_bounds(s: Seq<char>, i: int)
    requires
        0 <= i <= s.len(),
    ensures
        i <= line_break(s, i) <= s.len(),
        forall|k: int| i <= k < line_break(s, i) ==> s[k] != '\n',
        line_break(s, i) < s.len() ==> s[line_break(s, i)] == '\n',
    decreases s.len() - i,
{
    if i < s.len() && s[i] != '\n' {
        line_break_bounds(s, i + 1);
    }
}

pub proof fn line_break_eq(s: Seq<char>, i: int, j: int)
    requires
        0 <= i <= j <= s.len(),
        forall|k: int| i <= k < j ==> s[k] != '\n',
        j < s.len() ==> s[j] == '\n',
    ensures
        line_break(s, i) == j,
    decreases j - i,
{
    if i < j {
        line_break_eq(s, i + 1, j);
    }
}

/// A line with a trailing carriage return stripped, as `BufRead::lines`
/// yields it.
pub open spec fn strip_cr(s: Seq<char>) -> Seq<char> {
    if s.len() > 0 && s[s.len() - 1] == '\r' {
        s.drop_last()
    } else {
        s
    }
}

/// The lines of `s` starting at position `i`: pieces between `\n`
/// characters, each with a trailing `\r` stripped, and with no empty line
/// after a final `\n`.
pub open spec fn split_lines_from(s: Seq<char>, i: int) -> Seq<Seq<char>>
    decreases s.len() - i,
    via split_lines_from_decreases
{
    if i < 0 || i >= s.len() {
        Seq::empty()
    } else {
        let j = line_break(s, i);
        if j < s.len() {
            seq![strip_cr(s.subrange(i, j))] + split_lines_from(s, j + 1)
        } else {
            seq![strip_cr(s.subrange(i, j))]
        }
    }
}

#[via_fn]
proof fn split_lines_from_decreases(s: Seq<char>, i: int) {
    if 0 <= i < s.len() {
        line_break_bounds(s, i);
    }
}

/// The lines of `s`, as iterating `BufRead::lines` over it yields them.
pub open spec fn split_lines(s: Seq<char>) -> Seq<Seq<char>> {
    split_lines_from(s, 0)
}

/// Splits `text` into its lines.
pub fn split_text_lines(text: &[char]) -> (lines: Vec<Vec<char>>)
    ensures
        lines.deep_view() == split_lines(text@),
{
    let n = text.len();
    let mut lines: Vec<Vec<char>> = Vec::new();
    let mut i: usize = 0;
    proof {
        assert(lines.deep_view() =~= Seq::<Seq<char>>::empty());
    }
    while i < n
        invariant
            0 <= i <= n,
            n == text@.len(),
            split_lines(text@) == lines.deep_view() + split_lines_from(text@, i as int),
        decreases n - i,
    {
        let start = i;
        let mut j = i;
        while j < n && text[j] != '\n'
            invariant
                start <= j <= n,
                n == text@.len(),
                forall|k: int| start <= k < j ==> text@[k] != '\n',
            decreases n - j,
        {
            j = j + 1;
        }
        proof {
            line_break_eq(text@, start as int, j as int);
        }
        let end = if j > start && text[j - 1] == '\r' {
            j - 1
        } else {
            j
        };
        let mut line: Vec<char> = Vec::new();
        let mut k = start;
        while k < end
            invariant
                start <= k <= end <= n,
                n == text@.len(),
                line@ =~= text@.subrange(start as int, k as int),
            decreases end - k,
        {
            line.push(text[k]);
            proof {
                assert(line@ =~= text@.subrange(start as int, k + 1));
            }
            k = k + 1;
        }
        proof {
            let piece = text@.subrange(start as int, j as int);
            if j > start && text@[j - 1] == '\r' {
                assert(piece.drop_last() =~= text@.subrange(start as int, j - 1));
            }
            assert(line@ == strip_cr(piece));
        }
        let ghost prev_dv = lines.deep_view();
        lines.push(line);
        proof {
            assert(line.deep_view() =~= line@);
            assert(lines.deep_view() =~= prev_dv + seq![line@]);
        }
        if j < n {
            i = j + 1;
        } else {
            i = n;
        }
        proof {
            assert(lines.deep_view() + split_lines_from(text@, i as int) =~= split_lines(
                text@,
            ));
        }
    }
    proof {
        assert(lines.deep_view() + split_lines_from(text@, i as int) =~= lines.deep_view());
    }
    lines
}

/// A decimal digit.
pub open spec fn is_digit(c: char) -> bool {
    '0' <= c && c <= '9'
}

/// Every character of `s` is a decimal digit.
pub open spec fn all_digits(s: Seq<char>) -> bool {
    forall|i: int| 0 <= i < s.len() ==> is_digit(s[i])
}

/// The value of a sequence of decimal digits.
pub open spec fn dec_val(s: Seq<char>) -> int
    decreases s.len(),
{
    if s.len() == 0 {
        0
    } else {
        dec_val(s.drop_last()) * 10 + ((s[s.len() - 1] as u32) - 48)
    }
}

/// `s` without one leading sign character.
pub open spec fn sans_sign(s: Seq<char>) -> Seq<char> {
    if s.len() > 0 && (s[0] == '+' || s[0] == '-') {
        s.drop_first()
    } else {
        s
    }
}

/// An optionally signed run of decimal digits, the grammar that
/// `str::parse` accepts for the signed integer types.
pub open spec fn is_int_token(s: Seq<char>) -> bool {
    sans_sign(s).len() > 0 && all_digits(sans_sign(s))
}

/// The mathematical value of an integer token.
pub open spec fn int_token_val(s: Seq<char>) -> int {
    if s.len() > 0 && s[0] == '-' {
        -dec_val(sans_sign(s))
    } else {
        dec_val(sans_sign(s))
    }
}

proof fn dec_val_nonneg(s: Seq<char>)
    requires
        all_digits(s),
    ensures
        dec_val(s) >= 0,
    decreases s.len(),
{
    if s.len() > 0 {
        assert(all_digits(s.drop_last()));
        dec_val_nonneg(s.drop_last());
    }
}

proof fn dec_val_prefix(s: Seq<char>, k: int)
    requires
        all_digits(s),
        0 <= k <= s.len(),
    ensures
        dec_val(s.take(k)) <= dec_val(s),
    decreases s.len() - k,
{
    assert(s.take(s.len() as int) =~= s);
    if k < s.len() {
        assert(s.take(k + 1).drop_last() =~= s.take(k));
        assert(all_digits(s.take(k)));
        dec_val_nonneg(s.take(k));
        assert(is_digit(s[k]));
        assert((s[k] as u32) >= 48);
        assert(dec_val(s.take(k + 1)) == dec_val(s.take(k)) * 10 + ((s[k] as u32) - 48));
        dec_val_prefix(s, k + 1);
    }
}

/// Parses an optionally signed decimal integer, returning `None` exactly
/// when the characters do not form an integer token or the value does not
/// fit in an `i64` — as `str::parse::<i64>` decides it.
pub fn parse_int_chars(t: &[char]) -> (r: Option<i64>)
    ensures
        r is Some <==> is_int_token(t@) && i64::MIN <= int_token_val(t@) <= i64::MAX,
        r is Some ==> r == Some(int_token_val(t@) as i64),
{
    let n = t.len();
    if n == 0 {
        return None;
    }
    let neg = t[0] == '-';
    let signed = neg || t[0] == '+';
    let start: usize = if signed {
        1
    } else {
        0
    };
    if start >= n {
        return None;
    }
    let ghost digits = sans_sign(t@);
    proof {
        assert(digits =~= t@.subrange(start as int, n as int));
    }
    let mut mag: u64 = 0;
    let mut i = start;
    while i < n
        invariant
            start <= i <= n,
            n == t@.len(),
            digits == sans_sign(t@),
            digits =~= t@.subrange(start as int, n as int),
            forall|k: int| start <= k < i ==> is_digit(t@[k]),
            mag == dec_val(digits.take(i - start)),
            mag <= 0x8000_0000_0000_0000u64,
        decreases n - i,
    {
        let c = t[i];
        if !(c >= '0' && c <= '9') {
            proof {
                assert(!is_digit(digits[i - start]));
            }
            return None;
        }
        let d: u64 = c as u64 - 48;
        let next: u128 = mag as u128 * 10 + d as u128;
        proof {
            assert(digits.take(i - start + 1).drop_last() =~= digits.take(i - start));
            assert(dec_val(digits.take(i - start + 1)) == next);
        }
        if next > 0x8000_0000_0000_0000u128 {
            proof {
                if is_int_token(t@) {
                    assert(all_digits(digits));
                    dec_val_prefix(digits, i - start + 1);
                    assert(dec_val(digits) >= dec_val(digits.take(i - start + 1)));
                    assert(dec_val(digits) >= next);
                }
            }
            return None;
        }
        mag = next as u64;
        i = i + 1;
    }
    proof {
        assert(digits.take(n - start) =~= digits);
        assert(is_int_token(t@));
        assert(mag == dec_val(digits));
    }
    if neg {
        if mag == 0x8000_0000_0000_0000u64 {
            Some(i64::MIN)
        } else {
            Some(-(mag as i64))
        }
    } else {
        if mag >= 0x8000_0000_0000_0000u64 {
            None
        } else {
            Some(mag as i64)
        }
    }
}

/// The first index at or past `i` where `s` holds `a` or `b`, or the end
/// of `s`.
pub open spec fn find2(s: Seq<char>, i: int, a: char, b: char) -> int
    decreases s.len() - i,
{
    if i < 0 || i >= s.len() || s[i] == a || s[i] == b {
        i
    } else {
        find2(s, i + 1, a, b)
    }
}

pub proof fn find2_eq(s: Seq<char>, i: int, j: int, a: char, b: char)
    requires
        0 <= i <= j <= s.len(),
        forall|k: int| i <= k < j ==> s[k] != a && s[k] != b,
        j < s.len() ==> s[j] == a || s[j] == b,
    ensures
        find2(s, i, a, b) == j,
    decreases j - i,
{
    if i < j {
        find2_eq(s, i + 1, j, a, b);
    }
}

/// Copies the characters of `t` between `lo` and `hi`.
pub fn copy_range(t: &[char], lo: usize, hi: usize) -> (v: Vec<char>)
    requires
        lo <= hi <= t@.len(),
    ensures
        v@ == t@.subrange(lo as int, hi as int),
{
    let mut v: Vec<char> = Vec::new();
    let mut i = lo;
    while i < hi
        invariant
            lo <= i <= hi <= t@.len(),
            v@ =~= t@.subrange(lo as int, i as int),
        decreases hi - i,
    {
        v.push(t[i]);
        proof {
            assert(v@ =~= t@.subrange(lo as int, i + 1));
        }
        i = i + 1;
    }
    proof {
        assert(v@ =~= t@.subrange(lo as int, hi as int));
    }
    v
}

/// Decides `all_digits`.
pub fn all_digits_chars(v: &[char]) -> (r: bool)
    ensures
        r == all_digits(v@),
{
    let n = v.len();
    let mut i: usize = 0;
    while i < n
        invariant
            0 <= i <= n,
            n == v@.len(),
            forall|k: int| 0 <= k < i ==> is_digit(v@[k]),
        decreases n - i,
    {
        let c = v[i];
        if !(c >= '0' && c <= '9') {
            proof {
                assert(!is_digit(v@[i as int]));
            }
            return false;
        }
        i = i + 1;
    }
    true
}

/// Decides `is_int_token`.
pub fn is_int_token_chars(v: &[char]) -> (r: bool)
    ensures
        r == is_int_token(v@),
{
    let n = v.len();
    let start: usize = if n > 0 && (v[0] == '+' || v[0] == '-') {
        1
    } else {
        0
    };
    proof {
        assert(sans_sign(v@) =~= v@.subrange(start as int, n as int));
    }
    let rest = copy_range(v, start, n);
    rest.len() > 0 && all_digits_chars(rest.as_slice())
}

/// The word `inf` or `infinity`, in any mix of letter cases.
pub open spec fn is_inf_word(s: Seq<char>) -> bool {
    ||| (s.len() == 3 && (s[0] == 'i' || s[0] == 'I') && (s[1] == 'n' || s[1] == 'N') && (s[2]
        == 'f' || s[2] == 'F'))
    ||| (s.len() == 8 && (s[0] == 'i' || s[0] == 'I') && (s[1] == 'n' || s[1] == 'N') && (s[2]
        == 'f' || s[2] == 'F') && (s[3] == 'i' || s[3] == 'I') && (s[4] == 'n' || s[4] == 'N')
        && (s[5] == 'i' || s[5] == 'I') && (s[6] == 't' || s[6] == 'T') && (s[7] == 'y' || s[7]
        == 'Y'))
}

/// The word `nan`, in any mix of letter cases.
pub open spec fn is_nan_word(s: Seq<char>) -> bool {
    s.len() == 3 && (s[0] == 'n' || s[0] == 'N') && (s[1] == 'a' || s[1] == 'A') && (s[2] == 'n'
        || s[2] == 'N')
}

/// A mantissa: a run of digits, optionally with one point somewhere in it,
/// with at least one digit overall.
pub open spec fn is_mantissa(m: Seq<char>) -> bool {
    let d = find2(m, 0, '.', '.');
    if d == m.len() {
        m.len() > 0 && all_digits(m)
    } else {
        all_digits(m.take(d)) && all_digits(m.skip(d + 1)) && (d > 0 || m.len() - d - 1 > 0)
    }
}

/// The grammar that `str::parse` accepts for the floating-point types: an
/// optional sign, then an infinity or not-a-number word, or a mantissa with
/// an optional exponent.
pub open spec fn is_float_token(s: Seq<char>) -> bool {
    let b = sans_sign(s);
    ||| is_inf_word(b)
    ||| is_nan_word(b)
    ||| {
        let k = find2(b, 0, 'e', 'E');
        if k == b.len() {
            is_mantissa(b)
        } else {
            is_mantissa(b.take(k)) && is_int_token(b.skip(k + 1))
        }
    }
}

/// Decides `is_mantissa`.
fn is_mantissa_chars(m: &[char]) -> (r: bool)
    ensures
        r == is_mantissa(m@),
{
    let n = m.len();
    let mut d: usize = 0;
    while d < n && m[d] != '.'
        invariant
            0 <= d <= n,
            n == m@.len(),
            forall|k: int| 0 <= k < d ==> m@[k] != '.',
        decreases n - d,
    {
        d = d + 1;
    }
    proof {
        find2_eq(m@, 0, d as int, '.', '.');
    }
    if d == n {
        n > 0 && all_digits_chars(m)
    } else {
        proof {
            assert(m@.take(d as int) =~= m@.subrange(0, d as int));
            assert(m@.skip(d + 1) =~= m@.subrange(d + 1, n as int));
        }
        let before = copy_range(m, 0, d);
        let after = copy_range(m, d + 1, n);
        all_digits_chars(before.as_slice()) && all_digits_chars(after.as_slice()) && (d > 0 || n
            - d - 1 > 0)
    }
}

/// Decides `is_float_token`.
pub fn check_float_chars(t: &[char]) -> (r: bool)
    ensures
        r == is_float_token(t@),
{
    let n = t.len();
    let start: usize = if n > 0 && (t[0] == '+' || t[0] == '-') {
        1
    } else {
        0
    };
    proof {
        assert(sans_sign(t@) =~= t@.subrange(start as int, n as int));
    }
    let b = copy_range(t, start, n);
    let bn = b.len();
    if bn == 3 && (b[0] == 'i' || b[0] == 'I') && (b[1] == 'n' || b[1] == 'N') && (b[2] == 'f'
        || b[2] == 'F') {
        return true;
    }
    if bn == 8 && (b[0] == 'i' || b[0] == 'I') && (b[1] == 'n' || b[1] == 'N') && (b[2] == 'f'
        || b[2] == 'F') && (b[3] == 'i' || b[3] == 'I') && (b[4] == 'n' || b[4] == 'N') && (b[5]
        == 'i' || b[5] == 'I') && (b[6] == 't' || b[6] == 'T') && (b[7] == 'y' || b[7] == 'Y') {
        return true;
    }
    if bn == 3 && (b[0] == 'n' || b[0] == 'N') && (b[1] == 'a' || b[1] == 'A') && (b[2] == 'n'
        || b[2] == 'N') {
        return true;
    }
    let mut k: usize = 0;
    while k < bn && !(b[k] == 'e' || b[k] == 'E')
        invariant
            0 <= k <= bn,
            bn == b@.len(),
            forall|j: int| 0 <= j < k ==> b@[j] != 'e' && b@[j] != 'E',
        decreases bn - k,
    {
        k = k + 1;
    }
    proof {
        find2_eq(b@, 0, k as int, 'e', 'E');
    }
    if k == bn {
        is_mantissa_chars(b.as_slice())
    } else {
        proof {
            assert(b@.take(k as int) =~= b@.subrange(0, k as int));
            assert(b@.skip(k + 1) =~= b@.subrange(k + 1, bn as int));
        }
        let mant = copy_range(b.as_slice(), 0, k);
        let exp = copy_range(b.as_slice(), k + 1, bn);
        is_mantissa_chars(mant.as_slice()) && is_int_token_chars(exp.as_slice())
    }
}

} // verus!
