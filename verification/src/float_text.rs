//! The 64-bit floating-point literal grammar, as `str::parse::<f64>` accepts
//! it: after ASCII-lowercasing, an optional sign followed by `inf`,
//! `infinity`, `nan`, or a number `digits [. digits] [e [sign] digits]` with
//! at least one mantissa digit. A cell declared as a floating-point column is
//! validated against this grammar and carried as its text.

use crate::numerals::{all_digits, is_digit_char};
use vstd::prelude::*;

verus! {

/// ASCII lowercasing of one character; other characters are unchanged.
pub open spec fn ascii_lower_char(c: char) -> char {
    match c {
        'A' => 'a',
        'B' => 'b',
        'C' => 'c',
        'D' => 'd',
        'E' => 'e',
        'F' => 'f',
        'G' => 'g',
        'H' => 'h',
        'I' => 'i',
        'J' => 'j',
        'K' => 'k',
        'L' => 'l',
        'M' => 'm',
        'N' => 'n',
        'O' => 'o',
        'P' => 'p',
        'Q' => 'q',
        'R' => 'r',
        'S' => 's',
        'T' => 't',
        'U' => 'u',
        'V' => 'v',
        'W' => 'w',
        'X' => 'x',
        'Y' => 'y',
        'Z' => 'z',
        _ => c,
    }
}

pub open spec fn lowered(s: Seq<char>) -> Seq<char> {
    s.map_values(|c: char| ascii_lower_char(c))
}

/// Drops one leading `+` or `-`, if any.
pub open spec fn strip_sign(s: Seq<char>) -> Seq<char> {
    if s.len() > 0 && (s[0] == '+' || s[0] == '-') {
        s.drop_first()
    } else {
        s
    }
}

/// `digits`, `digits . digits?`, or `digits? . digits`: one dot at most,
/// everything else a digit, at least one digit in all.
pub open spec fn is_mantissa(m: Seq<char>) -> bool {
    (m.len() > 0 && all_digits(m)) || (m.len() >= 2 && exists|i: int|
        0 <= i < m.len() && m[i] == '.' && all_digits(m.subrange(0, i)) && all_digits(
            m.subrange(i + 1, m.len() as int),
        ))
}

/// `e`, an optional sign, then one or more digits.
pub open spec fn is_exp_part(t: Seq<char>) -> bool {
    t.len() >= 1 && t[0] == 'e' && {
        let u = strip_sign(t.drop_first());
        u.len() > 0 && all_digits(u)
    }
}

/// A mantissa with an optional exponent part.
pub open spec fn is_number(b: Seq<char>) -> bool {
    is_mantissa(b) || (exists|i: int|
        0 <= i < b.len() && b[i] == 'e' && is_mantissa(b.subrange(0, i)) && is_exp_part(
            b.subrange(i, b.len() as int),
        ))
}

pub open spec fn is_lower_float(s: Seq<char>) -> bool {
    let b = strip_sign(s);
    b == "inf"@ || b == "infinity"@ || b == "nan"@ || is_number(b)
}

/// The texts on which `str::parse::<f64>` succeeds.
pub open spec fn is_float_literal(s: Seq<char>) -> bool {
    is_lower_float(lowered(s))
}

/// Every character of a mantissa is a digit or the dot.
proof fn lemma_mantissa_chars(m: Seq<char>, k: int)
    requires
        is_mantissa(m),
        0 <= k < m.len(),
    ensures
        is_digit_char(m[k]) || m[k] == '.',
{
    if m.len() > 0 && all_digits(m) {
    } else {
        let i = choose|i: int|
            0 <= i < m.len() && m[i] == '.' && all_digits(m.subrange(0, i)) && all_digits(
                m.subrange(i + 1, m.len() as int),
            );
        if k < i {
            assert(m.subrange(0, i)[k] == m[k]);
        } else if k > i {
            assert(m.subrange(i + 1, m.len() as int)[k - i - 1] == m[k]);
        }
    }
}

fn to_lower_char(c: char) -> (r: char)
    ensures
        r == ascii_lower_char(c),
{
    match c {
        'A' => 'a',
        'B' => 'b',
        'C' => 'c',
        'D' => 'd',
        'E' => 'e',
        'F' => 'f',
        'G' => 'g',
        'H' => 'h',
        'I' => 'i',
        'J' => 'j',
        'K' => 'k',
        'L' => 'l',
        'M' => 'm',
        'N' => 'n',
        'O' => 'o',
        'P' => 'p',
        'Q' => 'q',
        'R' => 'r',
        'S' => 's',
        'T' => 't',
        'U' => 'u',
        'V' => 'v',
        'W' => 'w',
        'X' => 'x',
        'Y' => 'y',
        'Z' => 'z',
        _ => c,
    }
}

fn is_digit_c(c: char) -> (r: bool)
    ensures
        r == is_digit_char(c),
{
    let u = c as u32;
    '0' as u32 <= u && u <= '9' as u32
}

fn all_digits_in(v: &Vec<char>, from: usize, to: usize) -> (r: bool)
    requires
        from <= to <= v@.len(),
    ensures
        r == all_digits(v@.subrange(from as int, to as int)),
{
    let mut j: usize = from;
    while j < to
        invariant
            from <= j <= to <= v@.len(),
            all_digits(v@.subrange(from as int, j as int)),
        decreases to - j,
    {
        if !is_digit_c(v[j]) {
            proof {
                assert(v@.subrange(from as int, to as int)[j - from] == v@[j as int]);
            }
            return false;
        }
        proof {
            let pre = v@.subrange(from as int, j as int);
            let ext = v@.subrange(from as int, j + 1 as int);
            assert(forall|k: int| 0 <= k < ext.len() ==> #[trigger] ext[k] == v@[from + k]);
            assert(forall|k: int|
                0 <= k < ext.len() ==> is_digit_char(#[trigger] ext[k])) by {
                assert(forall|k: int| 0 <= k < pre.len() ==> #[trigger] pre[k] == v@[from + k]);
            }
        }
        j = j + 1;
    }
    true
}

fn find_char(v: &Vec<char>, from: usize, to: usize, target: char) -> (r: Option<usize>)
    requires
        from <= to <= v@.len(),
    ensures
        match r {
            Some(j) => from <= j < to && v@[j as int] == target && (forall|k: int|
                from <= k < j ==> v@[k] != target),
            None => forall|k: int| from <= k < to ==> v@[k] != target,
        },
{
    let mut j: usize = from;
    while j < to
        invariant
            from <= j <= to <= v@.len(),
            forall|k: int| from <= k < j ==> v@[k] != target,
        decreases to - j,
    {
        if v[j] == target {
            return Some(j);
        }
        j = j + 1;
    }
    None
}

fn range_matches(v: &Vec<char>, from: usize, to: usize, lit: &str) -> (r: bool)
    requires
        from <= to <= v@.len(),
    ensures
        r == (v@.subrange(from as int, to as int) == lit@),
{
    let ll = lit.unicode_len();
    if to - from != ll {
        proof {
            assert(v@.subrange(from as int, to as int).len() != lit@.len());
        }
        return false;
    }
    let mut k: usize = 0;
    while k < ll
        invariant
            from + ll <= to + ll,
            to - from == ll,
            to <= v@.len(),
            ll == lit@.len(),
            k <= ll,
            forall|j: int| 0 <= j < k ==> v@[from + j] == lit@[j],
        decreases ll - k,
    {
        if v[from + k] != lit.get_char(k) {
            proof {
                assert(v@.subrange(from as int, to as int)[k as int] == v@[from + k]);
            }
            return false;
        }
        k = k + 1;
    }
    proof {
        assert(v@.subrange(from as int, to as int) =~= lit@);
    }
    true
}

fn is_mantissa_range(v: &Vec<char>, from: usize, to: usize) -> (r: bool)
    requires
        from <= to <= v@.len(),
    ensures
        r == is_mantissa(v@.subrange(from as int, to as int)),
{
    let ghost m = v@.subrange(from as int, to as int);
    match find_char(v, from, to, '.') {
        None => {
            let digits = to > from && all_digits_in(v, from, to);
            proof {
                if !digits {
                    assert(forall|i: int| 0 <= i < m.len() ==> #[trigger] m[i] != '.') by {
                        assert(forall|i: int|
                            0 <= i < m.len() ==> #[trigger] m[i] == v@[from + i]);
                    }
                }
            }
            digits
        },
        Some(j) => {
            let head_ok = all_digits_in(v, from, j);
            let tail_ok = all_digits_in(v, j + 1, to);
            let long_enough = to - from >= 2;
            let ok = head_ok && tail_ok && long_enough;
            proof {
                let i = j - from;
                assert(m[i] == v@[j as int]);
                assert(m.subrange(0, i) =~= v@.subrange(from as int, j as int));
                assert(m.subrange(i + 1, m.len() as int) =~= v@.subrange(j + 1, to as int));
                if ok {
                    assert(is_mantissa(m));
                } else {
                    // The first disjunct fails: the dot is not a digit.
                    assert(!is_digit_char('.'));
                    assert(!all_digits(m));
                    // Any witness for the second disjunct must be the first dot.
                    assert(forall|w: int|
                        0 <= w < m.len() && #[trigger] m[w] == '.' && all_digits(
                            m.subrange(0, w),
                        ) && all_digits(m.subrange(w + 1, m.len() as int)) && m.len() >= 2
                            ==> false) by {
                        assert(forall|w: int|
                            0 <= w < m.len() ==> #[trigger] m[w] == v@[from + w]);
                        assert forall|w: int|
                            i < w < m.len() && #[trigger] m[w] == '.' implies !all_digits(
                            m.subrange(0, w),
                        ) by {
                            assert(m.subrange(0, w)[i] == m[i]);
                            assert(!is_digit_char('.'));
                        }
                    }
                    assert(!is_mantissa(m));
                }
            }
            ok
        },
    }
}

fn is_exp_range(v: &Vec<char>, from: usize, to: usize) -> (r: bool)
    requires
        from <= to <= v@.len(),
    ensures
        r == is_exp_part(v@.subrange(from as int, to as int)),
{
    let ghost t = v@.subrange(from as int, to as int);
    if to == from {
        return false;
    }
    if v[from] != 'e' {
        proof {
            assert(t[0] == v@[from as int]);
        }
        return false;
    }
    let p: usize = if from + 1 < to && (v[from + 1] == '+' || v[from + 1] == '-') {
        from + 2
    } else {
        from + 1
    };
    proof {
        assert(t.drop_first() =~= v@.subrange(from + 1, to as int));
        if from + 1 < to && (v@[from + 1] == '+' || v@[from + 1] == '-') {
            assert(t.drop_first()[0] == v@[from + 1]);
            assert(strip_sign(t.drop_first()) =~= v@.subrange(p as int, to as int));
        } else {
            if from + 1 < to {
                assert(t.drop_first()[0] == v@[from + 1]);
            }
            assert(strip_sign(t.drop_first()) =~= v@.subrange(p as int, to as int));
        }
    }
    to > p && all_digits_in(v, p, to)
}

fn is_number_range(v: &Vec<char>, from: usize, to: usize) -> (r: bool)
    requires
        from <= to <= v@.len(),
    ensures
        r == is_number(v@.subrange(from as int, to as int)),
{
    let ghost b = v@.subrange(from as int, to as int);
    proof {
        assert(forall|i: int| 0 <= i < b.len() ==> #[trigger] b[i] == v@[from + i]);
    }
    match find_char(v, from, to, 'e') {
        None => {
            let r = is_mantissa_range(v, from, to);
            proof {
                assert(forall|i: int| 0 <= i < b.len() ==> #[trigger] b[i] != 'e');
            }
            r
        },
        Some(j) => {
            let head_ok = is_mantissa_range(v, from, j);
            let tail_ok = is_exp_range(v, j, to);
            let ok = head_ok && tail_ok;
            proof {
                let i = j - from;
                assert(b[i] == 'e');
                assert(b.subrange(0, i) =~= v@.subrange(from as int, j as int));
                assert(b.subrange(i, b.len() as int) =~= v@.subrange(j as int, to as int));
                // A mantissa never holds an `e`.
                assert(forall|w: int|
                    i <= w < b.len() && #[trigger] b[w] == 'e' && w > i ==> !is_mantissa(
                        b.subrange(0, w),
                    )) by {
                    assert forall|w: int|
                        i <= w < b.len() && #[trigger] b[w] == 'e' && w > i implies !is_mantissa(
                        b.subrange(0, w),
                    ) by {
                        if is_mantissa(b.subrange(0, w)) {
                            lemma_mantissa_chars(b.subrange(0, w), i);
                            assert(b.subrange(0, w)[i] == b[i]);
                            assert(!is_digit_char('e'));
                        }
                    }
                }
                if ok {
                    assert(is_number(b));
                } else {
                    if is_mantissa(b) {
                        lemma_mantissa_chars(b, i);
                        assert(!is_digit_char('e'));
                    }
                    assert(!is_number(b));
                }
            }
            ok
        },
    }
}

/// Decides membership in the floating-point literal grammar.
pub fn is_float_text(s: &str) -> (r: bool)
    ensures
        r == is_float_literal(s@),
{
    let len = s.unicode_len();
    let mut low: Vec<char> = Vec::new();
    let mut i: usize = 0;
    while i < len
        invariant
            i <= len,
            len == s@.len(),
            low@ =~= lowered(s@).subrange(0, i as int),
        decreases len - i,
    {
        let c = to_lower_char(s.get_char(i));
        proof {
            assert(lowered(s@)[i as int] == ascii_lower_char(s@[i as int]));
            assert(low@.push(ascii_lower_char(s@[i as int])) =~= lowered(s@).subrange(
                0,
                i + 1 as int,
            ));
        }
        low.push(c);
        i = i + 1;
    }
    proof {
        assert(low@ =~= lowered(s@));
    }
    let n = low.len();
    let start: usize = if n > 0 && (low[0] == '+' || low[0] == '-') {
        1
    } else {
        0
    };
    proof {
        assert(strip_sign(lowered(s@)) =~= low@.subrange(start as int, n as int));
    }
    let r = range_matches(&low, start, n, "inf") || range_matches(&low, start, n, "infinity")
        || range_matches(&low, start, n, "nan") || is_number_range(&low, start, n);
    r
}

} // verus!
