//! Byte-level text primitives shared by the front-end: whitespace trimming,
//! searching, decimal parsing, and the language's keyword constants.
//!
//! Source text is ASCII line-oriented; all parsing works on byte sequences,
//! with each operation specified as a spec function over `Seq<u8>`.

use vstd::prelude::*;

verus! {

/// ASCII whitespace, as the front-end understands it.
pub open spec fn is_space(b: u8) -> bool {
    b == 32 || b == 9 || b == 10 || b == 12 || b == 13
}

/// The operator characters of expressions: `+` and `-`.
pub open spec fn is_op(b: u8) -> bool {
    b == 43 || b == 45
}

/// ASCII decimal digit.
pub open spec fn is_digit(b: u8) -> bool {
    48 <= b <= 57
}

/// ASCII punctuation, per `u8::is_ascii_punctuation`.
pub open spec fn is_punct(b: u8) -> bool {
    (33 <= b <= 47) || (58 <= b <= 64) || (91 <= b <= 96) || (123 <= b <= 126)
}

/// First index `i >= from` holding exactly `t`, if any.
pub open spec fn find_byte(s: Seq<u8>, from: int, t: u8) -> Option<int>
    decreases s.len() - from when 0 <= from
{
    if from < 0 || from >= s.len() {
        None
    } else if s[from] == t {
        Some(from)
    } else {
        find_byte(s, from + 1, t)
    }
}

/// First index `i >= from` holding an operator character, if any.
pub open spec fn find_op(s: Seq<u8>, from: int) -> Option<int>
    decreases s.len() - from when 0 <= from
{
    if from < 0 || from >= s.len() {
        None
    } else if is_op(s[from]) {
        Some(from)
    } else {
        find_op(s, from + 1)
    }
}

/// First index `i >= from` holding whitespace, if any.
pub open spec fn find_ws(s: Seq<u8>, from: int) -> Option<int>
    decreases s.len() - from when 0 <= from
{
    if from < 0 || from >= s.len() {
        None
    } else if is_space(s[from]) {
        Some(from)
    } else {
        find_ws(s, from + 1)
    }
}

/// First index `i >= from` holding a non-whitespace byte, if any.
pub open spec fn find_non_ws(s: Seq<u8>, from: int) -> Option<int>
    decreases s.len() - from when 0 <= from
{
    if from < 0 || from >= s.len() {
        None
    } else if !is_space(s[from]) {
        Some(from)
    } else {
        find_non_ws(s, from + 1)
    }
}

/// What a byte search tells about the sequence.
pub proof fn lemma_find_byte(s: Seq<u8>, from: int, t: u8)
    requires
        0 <= from,
    ensures
        match find_byte(s, from, t) {
            Some(i) => from <= i < s.len() && s[i] == t && forall|k: int|
                from <= k < i ==> #[trigger] s[k] != t,
            None => forall|k: int| from <= k < s.len() ==> #[trigger] s[k] != t,
        },
    decreases s.len() - from,
{
    if from < s.len() && s[from] != t {
        lemma_find_byte(s, from + 1, t);
    }
}

/// What an operator search tells about the sequence.
pub proof fn lemma_find_op(s: Seq<u8>, from: int)
    requires
        0 <= from,
    ensures
        match find_op(s, from) {
            Some(i) => from <= i < s.len() && is_op(s[i]) && forall|k: int|
                from <= k < i ==> !is_op(#[trigger] s[k]),
            None => forall|k: int| from <= k < s.len() ==> !is_op(#[trigger] s[k]),
        },
    decreases s.len() - from,
{
    if from < s.len() && !is_op(s[from]) {
        lemma_find_op(s, from + 1);
    }
}

/// What a whitespace search tells about the sequence.
pub proof fn lemma_find_ws(s: Seq<u8>, from: int)
    requires
        0 <= from,
    ensures
        match find_ws(s, from) {
            Some(i) => from <= i < s.len() && is_space(s[i]) && forall|k: int|
                from <= k < i ==> !is_space(#[trigger] s[k]),
            None => forall|k: int| from <= k < s.len() ==> !is_space(#[trigger] s[k]),
        },
    decreases s.len() - from,
{
    if from < s.len() && !is_space(s[from]) {
        lemma_find_ws(s, from + 1);
    }
}

/// What a non-whitespace search tells about the sequence.
pub proof fn lemma_find_non_ws(s: Seq<u8>, from: int)
    requires
        0 <= from,
    ensures
        match find_non_ws(s, from) {
            Some(i) => from <= i < s.len() && !is_space(s[i]) && forall|k: int|
                from <= k < i ==> is_space(#[trigger] s[k]),
            None => forall|k: int| from <= k < s.len() ==> is_space(#[trigger] s[k]),
        },
    decreases s.len() - from,
{
    if from < s.len() && is_space(s[from]) {
        lemma_find_non_ws(s, from + 1);
    }
}

/// Leading whitespace removed.
pub open spec fn trim_start(s: Seq<u8>) -> Seq<u8>
    decreases s.len(),
{
    if s.len() > 0 && is_space(s[0]) {
        trim_start(s.drop_first())
    } else {
        s
    }
}

/// Trailing whitespace removed.
pub open spec fn trim_end(s: Seq<u8>) -> Seq<u8>
    decreases s.len(),
{
    if s.len() > 0 && is_space(s.last()) {
        trim_end(s.drop_last())
    } else {
        s
    }
}

/// Whitespace removed from both ends.
pub open spec fn trim(s: Seq<u8>) -> Seq<u8> {
    trim_end(trim_start(s))
}

/// Value of a digit string, most significant digit first.
pub open spec fn digits_val(s: Seq<u8>) -> int
    decreases s.len(),
{
    if s.len() == 0 {
        0
    } else {
        digits_val(s.drop_last()) * 10 + (s.last() - 48)
    }
}

pub open spec fn all_digits(s: Seq<u8>) -> bool {
    forall|i: int| 0 <= i < s.len() ==> is_digit(#[trigger] s[i])
}

/// Parsing a signed decimal byte string exactly as `i8` parsing accepts it:
/// an optional sign, then one or more digits, with the value in range.
pub open spec fn parse_i8(s: Seq<u8>) -> Option<i8> {
    let neg = s.len() > 0 && s[0] == 45;
    let d = if s.len() > 0 && is_op(s[0]) {
        s.drop_first()
    } else {
        s
    };
    if d.len() == 0 || !all_digits(d) {
        None
    } else {
        let v = if neg {
            -digits_val(d)
        } else {
            digits_val(d)
        };
        if -128 <= v <= 127 {
            Some(v as i8)
        } else {
            None
        }
    }
}

/// The byte a small signed value occupies, in two's complement.
pub open spec fn byte_of(v: int) -> u8
    recommends
        -256 <= v < 512,
{
    if v < 0 {
        (v + 256) as u8
    } else if v < 256 {
        v as u8
    } else {
        (v - 256) as u8
    }
}

/// The low byte of a nonnegative count.
pub open spec fn low_byte(n: int) -> u8
    recommends
        n >= 0,
{
    (n % 256) as u8
}

/// The first whitespace-separated token of a trimmed, nonempty string.
pub open spec fn first_token(t: Seq<u8>) -> Seq<u8> {
    match find_ws(t, 0) {
        None => t,
        Some(i) => t.subrange(0, i),
    }
}

/// The second whitespace-separated token, if any; text after it is not
/// part of the token.
pub open spec fn second_token(t: Seq<u8>) -> Option<Seq<u8>> {
    let e1 = match find_ws(t, 0) {
        None => t.len() as int,
        Some(i) => i,
    };
    let s2 = match find_non_ws(t, e1) {
        None => t.len() as int,
        Some(i) => i,
    };
    if s2 >= t.len() {
        None
    } else {
        let e2 = match find_ws(t, s2) {
            None => t.len() as int,
            Some(i) => i,
        };
        Some(t.subrange(s2, e2))
    }
}

/// The reserved accumulator pseudo-name, `reg`.
pub open spec fn reg_name() -> Seq<u8> {
    seq![114u8, 101u8, 103u8]
}

/// The `var` keyword.
pub open spec fn var_kw() -> Seq<u8> {
    seq![118u8, 97u8, 114u8]
}

/// The `goto` keyword.
pub open spec fn goto_kw() -> Seq<u8> {
    seq![103u8, 111u8, 116u8, 111u8]
}

/// The `noop` keyword.
pub open spec fn noop_kw() -> Seq<u8> {
    seq![110u8, 111u8, 111u8, 112u8]
}

pub fn is_space_b(b: u8) -> (r: bool)
    ensures
        r == is_space(b),
{
    b == 32 || b == 9 || b == 10 || b == 12 || b == 13
}

pub fn is_op_b(b: u8) -> (r: bool)
    ensures
        r == is_op(b),
{
    b == 43 || b == 45
}

/// First index `i >= from` holding `t`, scanning left to right.
pub fn find_byte_in(s: &[u8], from: usize, t: u8) -> (r: Option<usize>)
    ensures
        match r {
            Some(i) => find_byte(s@, from as int, t) == Some(i as int),
            None => find_byte(s@, from as int, t) == None::<int>,
        },
{
    let mut i: usize = from;
    while i < s.len()
        invariant
            from <= i,
            find_byte(s@, from as int, t) == find_byte(s@, i as int, t),
        decreases s.len() - i,
    {
        if *vstd::slice::slice_index_get(s, i) == t {
            return Some(i);
        }
        i = i + 1;
    }
    None
}

/// First index `i >= from` holding an operator character.
pub fn find_op_in(s: &[u8], from: usize) -> (r: Option<usize>)
    ensures
        match r {
            Some(i) => find_op(s@, from as int) == Some(i as int),
            None => find_op(s@, from as int) == None::<int>,
        },
{
    let mut i: usize = from;
    while i < s.len()
        invariant
            from <= i,
            find_op(s@, from as int) == find_op(s@, i as int),
        decreases s.len() - i,
    {
        if is_op_b(*vstd::slice::slice_index_get(s, i)) {
            return Some(i);
        }
        i = i + 1;
    }
    None
}

/// First index `i >= from` holding whitespace.
pub fn find_ws_in(s: &[u8], from: usize) -> (r: Option<usize>)
    ensures
        match r {
            Some(i) => find_ws(s@, from as int) == Some(i as int),
            None => find_ws(s@, from as int) == None::<int>,
        },
{
    let mut i: usize = from;
    while i < s.len()
        invariant
            from <= i,
            find_ws(s@, from as int) == find_ws(s@, i as int),
        decreases s.len() - i,
    {
        if is_space_b(*vstd::slice::slice_index_get(s, i)) {
            return Some(i);
        }
        i = i + 1;
    }
    None
}

/// First index `i >= from` holding a non-whitespace byte.
pub fn find_non_ws_in(s: &[u8], from: usize) -> (r: Option<usize>)
    ensures
        match r {
            Some(i) => find_non_ws(s@, from as int) == Some(i as int),
            None => find_non_ws(s@, from as int) == None::<int>,
        },
{
    let mut i: usize = from;
    while i < s.len()
        invariant
            from <= i,
            find_non_ws(s@, from as int) == find_non_ws(s@, i as int),
        decreases s.len() - i,
    {
        if !is_space_b(*vstd::slice::slice_index_get(s, i)) {
            return Some(i);
        }
        i = i + 1;
    }
    None
}

/// Whether the bytes spell the reserved pseudo-name `reg`.
pub fn is_reg_b(s: &[u8]) -> (r: bool)
    ensures
        r == (s@ == reg_name()),
{
    if s.len() != 3 {
        return false;
    }
    let r = *vstd::slice::slice_index_get(s, 0) == 114 && *vstd::slice::slice_index_get(s, 1)
        == 101 && *vstd::slice::slice_index_get(s, 2) == 103;
    proof {
        if r {
            assert(s@ =~= reg_name());
        }
    }
    r
}

/// Whether the bytes spell the `var` keyword.
pub fn is_var_kw_b(s: &[u8]) -> (r: bool)
    ensures
        r == (s@ == var_kw()),
{
    if s.len() != 3 {
        return false;
    }
    let r = *vstd::slice::slice_index_get(s, 0) == 118 && *vstd::slice::slice_index_get(s, 1) == 97
        && *vstd::slice::slice_index_get(s, 2) == 114;
    proof {
        if r {
            assert(s@ =~= var_kw());
        }
    }
    r
}

/// Whether the bytes spell the `goto` keyword.
pub fn is_goto_kw_b(s: &[u8]) -> (r: bool)
    ensures
        r == (s@ == goto_kw()),
{
    if s.len() != 4 {
        return false;
    }
    let r = *vstd::slice::slice_index_get(s, 0) == 103 && *vstd::slice::slice_index_get(s, 1)
        == 111 && *vstd::slice::slice_index_get(s, 2) == 116 && *vstd::slice::slice_index_get(s, 3)
        == 111;
    proof {
        if r {
            assert(s@ =~= goto_kw());
        }
    }
    r
}

/// Whether the bytes spell the `noop` keyword.
pub fn is_noop_kw_b(s: &[u8]) -> (r: bool)
    ensures
        r == (s@ == noop_kw()),
{
    if s.len() != 4 {
        return false;
    }
    let r = *vstd::slice::slice_index_get(s, 0) == 110 && *vstd::slice::slice_index_get(s, 1)
        == 111 && *vstd::slice::slice_index_get(s, 2) == 111 && *vstd::slice::slice_index_get(s, 3)
        == 112;
    proof {
        if r {
            assert(s@ =~= noop_kw());
        }
    }
    r
}

/// The slice with whitespace removed from both ends.
pub fn trim_slice(s: &[u8]) -> (r: &[u8])
    ensures
        r@ == trim(s@),
{
    proof {
        assert(s@.subrange(0, s@.len() as int) =~= s@);
    }
    let mut lo: usize = 0;
    while lo < s.len() && is_space_b(*vstd::slice::slice_index_get(s, lo))
        invariant
            lo <= s.len(),
            trim_start(s@) == trim_start(s@.subrange(lo as int, s@.len() as int)),
        decreases s.len() - lo,
    {
        proof {
            assert(s@.subrange(lo as int, s@.len() as int).drop_first() =~= s@.subrange(
                lo as int + 1,
                s@.len() as int,
            ));
        }
        lo = lo + 1;
    }
    proof {
        assert(trim_start(s@) =~= s@.subrange(lo as int, s@.len() as int));
    }
    let mut hi: usize = s.len();
    while hi > lo && is_space_b(*vstd::slice::slice_index_get(s, hi - 1))
        invariant
            lo <= hi <= s.len(),
            trim_start(s@) == s@.subrange(lo as int, s@.len() as int),
            trim_end(s@.subrange(lo as int, s@.len() as int)) == trim_end(
                s@.subrange(lo as int, hi as int),
            ),
        decreases hi,
    {
        proof {
            assert(s@.subrange(lo as int, hi as int).drop_last() =~= s@.subrange(
                lo as int,
                hi as int - 1,
            ));
        }
        hi = hi - 1;
    }
    proof {
        assert(trim_end(s@.subrange(lo as int, hi as int)) =~= s@.subrange(lo as int, hi as int));
    }
    vstd::slice::slice_subrange(s, lo, hi)
}

/// Whether two byte slices hold the same bytes.
pub fn eq_bytes(a: &[u8], b: &[u8]) -> (r: bool)
    ensures
        r == (a@ == b@),
{
    if a.len() != b.len() {
        return false;
    }
    let mut i: usize = 0;
    while i < a.len()
        invariant
            a@.len() == b@.len(),
            i <= a@.len(),
            forall|k: int| 0 <= k < i ==> a@[k] == b@[k],
        decreases a.len() - i,
    {
        if *vstd::slice::slice_index_get(a, i) != *vstd::slice::slice_index_get(b, i) {
            return false;
        }
        i = i + 1;
    }
    proof {
        assert(a@ =~= b@);
    }
    true
}

/// Signed decimal parsing of a byte string into an `i8`.
pub fn parse_i8_bytes(s: &[u8]) -> (r: Option<i8>)
    ensures
        r == parse_i8(s@),
{
    let mut start: usize = 0;
    let mut neg = false;
    if s.len() > 0 && is_op_b(*vstd::slice::slice_index_get(s, 0)) {
        neg = *vstd::slice::slice_index_get(s, 0) == 45;
        start = 1;
    }
    let ghost d = if s@.len() > 0 && is_op(s@[0]) {
        s@.drop_first()
    } else {
        s@
    };
    proof {
        assert(d =~= s@.subrange(start as int, s@.len() as int));
    }
    if start == s.len() {
        return None;
    }
    let mut val: u16 = 0;
    let mut j: usize = start;
    while j < s.len()
        invariant
            start <= j <= s@.len(),
            start == if s@.len() > 0 && is_op(s@[0]) {
                1int
            } else {
                0int
            },
            neg == (s@.len() > 0 && s@[0] == 45),
            d == s@.subrange(start as int, s@.len() as int),
            all_digits(s@.subrange(start as int, j as int)),
            digits_val(s@.subrange(start as int, j as int)) <= 255 ==> val == digits_val(
                s@.subrange(start as int, j as int),
            ),
            digits_val(s@.subrange(start as int, j as int)) > 255 ==> val > 255,
            val <= 2559,
        decreases s.len() - j,
    {
        let b = *vstd::slice::slice_index_get(s, j);
        if !(48 <= b && b <= 57) {
            proof {
                assert(d[j - start] == b);
                assert(!is_digit(d[j - start]));
                assert(!all_digits(d));
                assert(parse_i8(s@) == None::<i8>);
            }
            return None;
        }
        proof {
            let pre = s@.subrange(start as int, j as int);
            let ext = s@.subrange(start as int, j as int + 1);
            assert(ext.drop_last() =~= pre);
            assert(ext.last() == b);
            assert(digits_val(ext) == digits_val(pre) * 10 + (b - 48));
            assert(forall|k: int| 0 <= k < ext.len() ==> is_digit(#[trigger] ext[k]));
        }
        if val <= 255 {
            val = val * 10 + ((b - 48) as u16);
        }
        j = j + 1;
    }
    proof {
        assert(s@.subrange(start as int, j as int) =~= d);
    }
    if neg {
        if val <= 128 {
            Some((-(val as i16)) as i8)
        } else {
            None
        }
    } else {
        if val <= 127 {
            Some(val as i8)
        } else {
            None
        }
    }
}

} // verus!
