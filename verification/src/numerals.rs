//! Decimal numerals: the canonical decimal text of integers, a verified
//! renderer for it, and a verified parser for the signed 64-bit decimal
//! literal grammar (an optional `+`/`-` sign followed by one or more digits,
//! with the value required to fit in `i64`).

use vstd::prelude::*;
use vstd::string::*;

verus! {

/// The digit character for a value in 0..=9.
pub open spec fn digit_char(d: int) -> char {
    if d == 0 {
        '0'
    } else if d == 1 {
        '1'
    } else if d == 2 {
        '2'
    } else if d == 3 {
        '3'
    } else if d == 4 {
        '4'
    } else if d == 5 {
        '5'
    } else if d == 6 {
        '6'
    } else if d == 7 {
        '7'
    } else if d == 8 {
        '8'
    } else {
        '9'
    }
}

pub open spec fn is_digit_char(c: char) -> bool {
    '0' as u32 <= c as u32 && c as u32 <= '9' as u32
}

/// The numeric value of a digit character.
pub open spec fn digit_of(c: char) -> int {
    c as u32 - '0' as u32
}

pub open spec fn all_digits(s: Seq<char>) -> bool {
    forall|i: int| 0 <= i < s.len() ==> is_digit_char(#[trigger] s[i])
}

/// The canonical decimal numeral of a natural number: no sign, no leading
/// zeros (except for the single digit of zero itself).
pub open spec fn dec_rep(n: nat) -> Seq<char>
    decreases n,
{
    if n < 10 {
        seq![digit_char(n as int)]
    } else {
        dec_rep(n / 10).push(digit_char((n % 10) as int))
    }
}

/// The value of a digit string, most significant digit first.
pub open spec fn dec_val(s: Seq<char>) -> int
    decreases s.len(),
{
    if s.len() == 0 {
        0
    } else {
        dec_val(s.drop_last()) * 10 + digit_of(s.last())
    }
}

/// The canonical decimal text of a signed integer.
pub open spec fn int_text(v: int) -> Seq<char> {
    if v >= 0 {
        dec_rep(v as nat)
    } else {
        seq!['-'] + dec_rep((-v) as nat)
    }
}

/// What `str::parse::<i64>` returns: an optional sign followed by at least
/// one digit, with the signed value within `i64`'s range; `None` otherwise.
pub open spec fn parsed_i64(s: Seq<char>) -> Option<i64> {
    let body = if s.len() > 0 && (s[0] == '+' || s[0] == '-') {
        s.drop_first()
    } else {
        s
    };
    let neg = s.len() > 0 && s[0] == '-';
    if body.len() > 0 && all_digits(body) {
        let v = if neg {
            -dec_val(body)
        } else {
            dec_val(body)
        };
        if i64::MIN <= v <= i64::MAX {
            Some(v as i64)
        } else {
            None
        }
    } else {
        None
    }
}

pub proof fn lemma_dec_val_nonneg(s: Seq<char>)
    requires
        all_digits(s),
    ensures
        dec_val(s) >= 0,
    decreases s.len(),
{
    if s.len() > 0 {
        assert(all_digits(s.drop_last()));
        lemma_dec_val_nonneg(s.drop_last());
        assert(is_digit_char(s.last()));
    }
}

/// The value of a digit string only grows as digits are appended.
pub proof fn lemma_dec_val_prefix(s: Seq<char>, k: int)
    requires
        all_digits(s),
        0 <= k <= s.len(),
    ensures
        dec_val(s.subrange(0, k)) <= dec_val(s),
    decreases s.len(),
{
    if k == s.len() {
        assert(s.subrange(0, k) =~= s);
    } else {
        let t = s.drop_last();
        assert(all_digits(t));
        assert(s.subrange(0, k) =~= t.subrange(0, k));
        lemma_dec_val_prefix(t, k);
        lemma_dec_val_nonneg(t);
        assert(is_digit_char(s.last()));
    }
}

pub proof fn lemma_dec_rep_digits(n: nat)
    ensures
        dec_rep(n).len() >= 1,
        all_digits(dec_rep(n)),
    decreases n,
{
    if n >= 10 {
        lemma_dec_rep_digits(n / 10);
        let s = dec_rep(n / 10);
        let c = digit_char((n % 10) as int);
        assert(is_digit_char(c));
        assert(forall|i: int|
            0 <= i < s.push(c).len() ==> is_digit_char(#[trigger] s.push(c)[i]));
    }
}

/// Rendering then reading back a decimal numeral recovers the number.
pub proof fn lemma_dec_rep_val(n: nat)
    ensures
        dec_val(dec_rep(n)) == n,
    decreases n,
{
    if n < 10 {
        let s = seq![digit_char(n as int)];
        assert(s.drop_last() =~= Seq::<char>::empty());
        assert(dec_val(Seq::<char>::empty()) == 0);
        assert(s.last() == digit_char(n as int));
        assert(dec_val(s) == digit_of(digit_char(n as int)));
    } else {
        lemma_dec_rep_val(n / 10);
        let s = dec_rep(n / 10);
        let c = digit_char((n % 10) as int);
        assert(s.push(c).drop_last() =~= s);
        assert(s.push(c).last() == c);
        assert(digit_of(c) == n % 10);
    }
}

/// Single-digit text, used to assemble numerals.
fn digit_str(d: u64) -> (r: &'static str)
    requires
        d < 10,
    ensures
        r@.len() == 1,
        r@[0] == digit_char(d as int),
{
    if d == 0 {
        proof { reveal_strlit("0"); }
        "0"
    } else if d == 1 {
        proof { reveal_strlit("1"); }
        "1"
    } else if d == 2 {
        proof { reveal_strlit("2"); }
        "2"
    } else if d == 3 {
        proof { reveal_strlit("3"); }
        "3"
    } else if d == 4 {
        proof { reveal_strlit("4"); }
        "4"
    } else if d == 5 {
        proof { reveal_strlit("5"); }
        "5"
    } else if d == 6 {
        proof { reveal_strlit("6"); }
        "6"
    } else if d == 7 {
        proof { reveal_strlit("7"); }
        "7"
    } else if d == 8 {
        proof { reveal_strlit("8"); }
        "8"
    } else {
        proof { reveal_strlit("9"); }
        "9"
    }
}

/// Renders an unsigned 64-bit number as its canonical decimal numeral.
pub fn u64_to_string(n: u64) -> (s: String)
    ensures
        s@ == dec_rep(n as nat),
{
    let mut out = String::new();
    let mut x: u64 = n;
    proof {
        assert(dec_rep(n as nat) =~= dec_rep(x as nat) + out@);
    }
    while x >= 10
        invariant
            dec_rep(n as nat) == dec_rep(x as nat) + out@,
        decreases x,
    {
        let ds = digit_str(x % 10);
        let prefixed = String::from_str(ds).concat(out.as_str());
        proof {
            assert(ds@ =~= seq![digit_char((x % 10) as int)]);
            assert(dec_rep(x as nat) == dec_rep((x as nat) / 10).push(
                digit_char(((x as nat) % 10) as int),
            ));
            assert(dec_rep((x as nat) / 10).push(digit_char(((x as nat) % 10) as int))
                =~= dec_rep((x as nat) / 10) + ds@);
            assert(dec_rep(n as nat) =~= dec_rep((x as nat) / 10) + (ds@ + out@));
            assert((x / 10) as nat == (x as nat) / 10);
        }
        out = prefixed;
        x = x / 10;
    }
    let ds = digit_str(x);
    let result = String::from_str(ds).concat(out.as_str());
    proof {
        assert(ds@ =~= seq![digit_char(x as int)]);
        assert(dec_rep(x as nat) == seq![digit_char(x as int)]);
        assert(result@ =~= dec_rep(x as nat) + out@);
    }
    result
}

/// Renders a signed 64-bit number as its canonical decimal text.
pub fn i64_to_string(v: i64) -> (s: String)
    ensures
        s@ == int_text(v as int),
{
    if v >= 0 {
        u64_to_string(v as u64)
    } else {
        let m: u64 = ((-(v + 1)) as u64) + 1;
        proof {
            assert(m as int == -(v as int));
        }
        let digits = u64_to_string(m);
        let result = String::from_str("-").concat(digits.as_str());
        proof {
            reveal_strlit("-");
            assert("-"@ =~= seq!['-']);
            assert(result@ =~= seq!['-'] + dec_rep((-(v as int)) as nat));
        }
        result
    }
}

/// Reads a signed 64-bit decimal literal, exactly as `str::parse::<i64>`
/// does: optional sign, one or more digits, value within range.
pub fn parse_i64(s: &str) -> (r: Option<i64>)
    ensures
        r == parsed_i64(s@),
{
    let len = s.unicode_len();
    if len == 0 {
        return None;
    }
    let first = s.get_char(0);
    let neg = first == '-';
    let start: usize = if first == '-' || first == '+' {
        1
    } else {
        0
    };
    let ghost body = if s@[0] == '+' || s@[0] == '-' {
        s@.drop_first()
    } else {
        s@
    };
    proof {
        assert(body =~= s@.subrange(start as int, len as int));
    }
    if start == len {
        return None;
    }
    let mut m: u64 = 0;
    let mut i: usize = start;
    while i < len
        invariant
            start <= i <= len,
            len == s@.len(),
            start < len,
            s@.len() > 0,
            neg == (s@[0] == '-'),
            body == (if s@[0] == '+' || s@[0] == '-' {
                s@.drop_first()
            } else {
                s@
            }),
            body =~= s@.subrange(start as int, len as int),
            all_digits(s@.subrange(start as int, i as int)),
            m as int == dec_val(s@.subrange(start as int, i as int)),
        decreases len - i,
    {
        let c = s.get_char(i);
        let u: u32 = c as u32;
        if u < '0' as u32 || u > '9' as u32 {
            proof {
                assert(body[i - start] == s@[i as int]);
                assert(!is_digit_char(body[i - start]));
            }
            return None;
        }
        let d: u64 = (u - '0' as u32) as u64;
        let stepped = match m.checked_mul(10) {
            Some(m10) => m10.checked_add(d),
            None => None,
        };
        match stepped {
            Some(next) => {
                proof {
                    let pre = s@.subrange(start as int, i as int);
                    let ext = s@.subrange(start as int, i + 1 as int);
                    assert(ext.drop_last() =~= pre);
                    assert(ext.last() == s@[i as int]);
                    assert(all_digits(ext));
                }
                m = next;
                i = i + 1;
            },
            None => {
                // The prefix read so far already exceeds u64's range, so the
                // whole digit string (if it is one) is far outside i64's.
                proof {
                    let pre = s@.subrange(start as int, i as int);
                    let ext = s@.subrange(start as int, i + 1 as int);
                    assert(ext.drop_last() =~= pre);
                    assert(ext.last() == s@[i as int]);
                    assert(all_digits(ext));
                    assert(dec_val(ext) == (m as int) * 10 + d);
                    assert(dec_val(ext) > u64::MAX);
                    if all_digits(body) {
                        assert(ext =~= body.subrange(0, i + 1 - start));
                        lemma_dec_val_prefix(body, i + 1 - start);
                        assert(dec_val(body) > u64::MAX);
                    }
                }
                return None;
            },
        }
    }
    proof {
        assert(s@.subrange(start as int, i as int) =~= body);
        lemma_dec_val_nonneg(body);
    }
    if neg {
        if m <= i64::MAX as u64 {
            Some(-(m as i64))
        } else if m == (i64::MAX as u64) + 1 {
            Some(i64::MIN)
        } else {
            None
        }
    } else {
        if m <= i64::MAX as u64 {
            Some(m as i64)
        } else {
            None
        }
    }
}

} // verus!
