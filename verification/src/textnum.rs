//! Verified decimal rendering and parsing of the engine's integers, and the
//! zero-padded fields the time formatter uses.

use vstd::prelude::*;
use vstd::string::StringExecFns;

verus! {

/// The decimal digit character for one digit value.
pub open spec fn dchar(d: int) -> char {
    if d == 0 {
        '0'
    } else if d == 1 {
        '1'
    } else if d == 2 {
        '2'
    } else if d == 3 {
        '3'
    } else if d == 4 {
        '4'
    } else if d == 5 {
        '5'
    } else if d == 6 {
        '6'
    } else if d == 7 {
        '7'
    } else if d == 8 {
        '8'
    } else {
        '9'
    }
}

/// The decimal text of a natural number: most significant digit first, no
/// leading zeros except for zero itself.
pub open spec fn dec_seq(n: nat) -> Seq<char>
    decreases n,
{
    if n < 10 {
        seq![dchar(n as int)]
    } else {
        dec_seq(n / 10) + seq![dchar((n % 10) as int)]
    }
}

/// The decimal text of an engine integer: a minus sign ahead of the
/// magnitude for negative values.
pub open spec fn int_text(i: int) -> Seq<char> {
    if i < 0 {
        seq!['-'] + dec_seq((-i) as nat)
    } else {
        dec_seq(i as nat)
    }
}

/// The text of a digit stack as collected least-significant-first: the
/// digits read back in reverse.
spec fn digits_text(ds: Seq<u8>) -> Seq<char>
    decreases ds.len(),
{
    if ds.len() == 0 {
        Seq::empty()
    } else {
        seq![dchar(ds.last() as int)] + digits_text(ds.drop_last())
    }
}

/// The one-character text of a decimal digit.
fn digit_str(d: u8) -> (r: &'static str)
    requires
        d < 10,
    ensures
        r@ == seq![dchar(d as int)],
{
    proof {
        reveal_strlit("0");
        reveal_strlit("1");
        reveal_strlit("2");
        reveal_strlit("3");
        reveal_strlit("4");
        reveal_strlit("5");
        reveal_strlit("6");
        reveal_strlit("7");
        reveal_strlit("8");
        reveal_strlit("9");
    }
    let r = if d == 0 {
        "0"
    } else if d == 1 {
        "1"
    } else if d == 2 {
        "2"
    } else if d == 3 {
        "3"
    } else if d == 4 {
        "4"
    } else if d == 5 {
        "5"
    } else if d == 6 {
        "6"
    } else if d == 7 {
        "7"
    } else if d == 8 {
        "8"
    } else {
        "9"
    };
    proof {
        assert(r@ =~= seq![dchar(d as int)]);
    }
    r
}

/// Renders a natural number in decimal.
pub fn u64_to_text(n: u64) -> (s: String)
    ensures
        s@ == dec_seq(n as nat),
{
    if n == 0 {
        let s = String::from_str("0");
        proof {
            reveal_strlit("0");
            assert(s@ =~= dec_seq(0));
        }
        return s;
    }
    let mut digs: Vec<u8> = Vec::new();
    let mut m: u64 = n;
    while m > 0
        invariant
            m <= n,
            n > 0,
            forall|j: int| 0 <= j < digs@.len() ==> (#[trigger] digs@[j]) < 10,
            m > 0 ==> dec_seq(n as nat) =~= dec_seq(m as nat) + digits_text(digs@),
            m == 0 ==> dec_seq(n as nat) =~= digits_text(digs@),
        decreases m,
    {
        let ghost old_digs = digs@;
        let ghost old_m = m as nat;
        let d: u8 = (m % 10) as u8;
        digs.push(d);
        m = m / 10;
        proof {
            assert((old_m / 10) < old_m) by (nonlinear_arith)
                requires
                    old_m >= 1,
            ;
            assert(digs@.drop_last() =~= old_digs);
            assert(digs@.last() == d);
            assert(digits_text(digs@) =~= seq![dchar(d as int)] + digits_text(old_digs));
            if m > 0 {
                assert(old_m >= 10);
                assert(dec_seq(old_m) =~= dec_seq(old_m / 10) + seq![
                    dchar((old_m % 10) as int),
                ]);
                assert(dec_seq(m as nat) + digits_text(digs@) =~= (dec_seq(old_m / 10) + seq![
                    dchar(d as int),
                ]) + digits_text(old_digs));
                assert(dec_seq(n as nat) =~= dec_seq(m as nat) + digits_text(digs@));
            } else {
                assert(old_m < 10);
                assert(dec_seq(old_m) =~= seq![dchar(old_m as int)]);
                assert(dec_seq(n as nat) =~= digits_text(digs@));
            }
        }
    }
    let mut out = String::new();
    let mut i: usize = digs.len();
    proof {
        assert(digs@.take(i as int) =~= digs@);
    }
    while i > 0
        invariant
            i <= digs@.len(),
            forall|j: int| 0 <= j < digs@.len() ==> (#[trigger] digs@[j]) < 10,
            out@ + digits_text(digs@.take(i as int)) =~= dec_seq(n as nat),
        decreases i,
    {
        let d = digs[i - 1];
        proof {
            assert(digs@.take(i as int).last() == digs@[i - 1]);
            assert(digs@.take(i as int).drop_last() =~= digs@.take(i - 1));
            assert(digits_text(digs@.take(i as int)) =~= seq![dchar(digs@[i - 1] as int)]
                + digits_text(digs@.take(i - 1)));
        }
        out.append(digit_str(d));
        i = i - 1;
    }
    proof {
        assert(digs@.take(0) =~= Seq::<u8>::empty());
        assert(out@ =~= dec_seq(n as nat));
    }
    out
}

/// Renders an engine integer in decimal, with a minus sign for negative
/// values.
pub fn i64_to_text(i: i64) -> (s: String)
    ensures
        s@ == int_text(i as int),
{
    if i >= 0 {
        u64_to_text(i as u64)
    } else {
        let mag: u64 = if i == i64::MIN {
            9223372036854775808u64
        } else {
            (-i) as u64
        };
        let mut out = String::from_str("-");
        out.append(u64_to_text(mag).as_str());
        proof {
            reveal_strlit("-");
            assert(out@ =~= int_text(i as int));
        }
        out
    }
}

/// Renders a natural number in decimal, left-padded with zeros to the given
/// width when it is shorter.
pub open spec fn padded_text(n: nat, width: nat) -> Seq<char> {
    if dec_seq(n).len() >= width {
        dec_seq(n)
    } else {
        Seq::new((width - dec_seq(n).len()) as nat, |i: int| '0') + dec_seq(n)
    }
}

/// Renders a natural number zero-padded to a width.
pub fn u64_to_text_padded(n: u64, width: usize) -> (s: String)
    ensures
        s@ == padded_text(n as nat, width as nat),
{
    let digits = u64_to_text(n);
    let digit_count = digits.as_str().unicode_len();
    if digit_count >= width {
        proof {
            assert(digits@ =~= padded_text(n as nat, width as nat));
        }
        return digits;
    }
    let mut out = String::new();
    let mut k: usize = 0;
    let pad = width - digit_count;
    while k < pad
        invariant
            pad == width - digit_count,
            digit_count == dec_seq(n as nat).len(),
            k <= pad,
            out@ =~= Seq::new(k as nat, |i: int| '0'),
        decreases pad - k,
    {
        out.append("0");
        proof {
            reveal_strlit("0");
            assert(out@ =~= Seq::new((k + 1) as nat, |i: int| '0'));
        }
        k = k + 1;
    }
    out.append(digits.as_str());
    proof {
        assert(out@ =~= padded_text(n as nat, width as nat));
    }
    out
}

} // verus!

verus! {

/// A decimal digit character.
pub open spec fn is_digit_char(c: char) -> bool {
    '0' <= c && c <= '9'
}

/// The numeric value of a digit character.
pub open spec fn digit_val(c: char) -> int {
    c as int - 48
}

/// The value of a digit string, most significant digit first.
pub open spec fn digits_value(s: Seq<char>) -> int
    decreases s.len(),
{
    if s.len() == 0 {
        0
    } else {
        digits_value(s.drop_last()) * 10 + digit_val(s.last())
    }
}

/// A non-empty run of digit characters.
pub open spec fn all_digits(s: Seq<char>) -> bool {
    forall|i: int| 0 <= i < s.len() ==> is_digit_char(#[trigger] s[i])
}

/// What parsing a decimal integer yields: an optional sign, then at least
/// one digit and nothing else, with the value in the engine's integer
/// range; anything else does not parse.
pub open spec fn parse_i64_spec(s: Seq<char>) -> Option<int> {
    if s.len() == 0 {
        Option::None
    } else {
        let neg = s[0] == '-';
        let ds = if s[0] == '-' || s[0] == '+' {
            s.skip(1)
        } else {
            s
        };
        if ds.len() == 0 || !all_digits(ds) {
            Option::None
        } else {
            let v = if neg {
                -digits_value(ds)
            } else {
                digits_value(ds)
            };
            if i64::MIN <= v <= i64::MAX {
                Option::Some(v)
            } else {
                Option::None
            }
        }
    }
}

/// The value of a digit string never shrinks as digits are appended, and is
/// never negative.
proof fn lemma_digits_value_grows(s: Seq<char>, k1: int, k2: int)
    requires
        all_digits(s),
        0 <= k1 <= k2 <= s.len(),
    ensures
        0 <= digits_value(s.take(k1)) <= digits_value(s.take(k2)),
    decreases k2 - k1,
{
    if k1 == k2 {
        lemma_digits_value_nonneg(s.take(k1));
    } else {
        lemma_digits_value_grows(s, k1, k2 - 1);
        let p = s.take(k2);
        assert(p.drop_last() =~= s.take(k2 - 1));
        assert(is_digit_char(s[k2 - 1]));
        let v = digits_value(s.take(k2 - 1));
        assert(digits_value(p) == v * 10 + digit_val(s[k2 - 1]));
        assert(v * 10 >= v) by (nonlinear_arith)
            requires
                v >= 0,
        ;
    }
}

/// The value of a digit string is never negative.
proof fn lemma_digits_value_nonneg(s: Seq<char>)
    requires
        all_digits(s),
    ensures
        digits_value(s) >= 0,
    decreases s.len(),
{
    if s.len() > 0 {
        assert(all_digits(s.drop_last())) by {
            assert(forall|i: int|
                0 <= i < s.len() - 1 ==> s.drop_last()[i] == #[trigger] s[i]);
        }
        lemma_digits_value_nonneg(s.drop_last());
        let v = digits_value(s.drop_last());
        assert(is_digit_char(s.last()));
        assert(v * 10 >= 0) by (nonlinear_arith)
            requires
                v >= 0,
        ;
    }
}

/// Parses a decimal engine integer from text: an optional sign, then at
/// least one digit and nothing else, rejecting values outside the engine's
/// integer range.
pub fn text_to_i64(s: &str) -> (r: Option<i64>)
    ensures
        match parse_i64_spec(s@) {
            Option::Some(v) => r == Option::Some(v as i64),
            Option::None => r is None,
        },
{
    let n = s.unicode_len();
    if n == 0 {
        return None;
    }
    let c0 = s.get_char(0);
    let neg = c0 == '-';
    let start: usize = if c0 == '-' || c0 == '+' {
        1
    } else {
        0
    };
    let ghost ds = if s@[0] == '-' || s@[0] == '+' {
        s@.skip(1)
    } else {
        s@
    };
    proof {
        assert(ds.len() == n - start);
        assert(forall|i: int| 0 <= i < ds.len() ==> ds[i] == s@[start + i]);
    }
    if start == n {
        return None;
    }
    let mut acc: u64 = 0;
    let mut k: usize = start;
    while k < n
        invariant
            n == s@.len(),
            start <= 1,
            start < n,
            start <= k <= n,
            start == (if s@[0] == '-' || s@[0] == '+' { 1int } else { 0int }),
            ds == (if s@[0] == '-' || s@[0] == '+' { s@.skip(1) } else { s@ }),
            ds.len() == n - start,
            forall|i: int| 0 <= i < ds.len() ==> ds[i] == s@[start + i],
            forall|i: int| 0 <= i < k - start ==> is_digit_char(#[trigger] ds[i]),
            acc as int == digits_value(ds.take((k - start) as int)),
        decreases n - k,
    {
        let c = s.get_char(k);
        if !('0' <= c && c <= '9') {
            proof {
                assert(ds[(k - start) as int] == c);
                assert(!all_digits(ds));
            }
            return None;
        }
        let d: u64 = ((c as u32) - 48) as u64;
        let ghost j = (k - start) as int;
        proof {
            assert(ds.take(j + 1).drop_last() =~= ds.take(j));
            assert(ds.take(j + 1).last() == ds[j]);
        }
        let stepped = match acc.checked_mul(10) {
            Option::Some(t) => t.checked_add(d),
            Option::None => Option::None,
        };
        match stepped {
            Option::Some(next) => {
                acc = next;
                k = k + 1;
            },
            Option::None => {
                proof {
                    if all_digits(ds) {
                        lemma_digits_value_nonneg(ds.take(j));
                        assert(digits_value(ds.take(j + 1)) == digits_value(ds.take(j)) * 10
                            + digit_val(ds[j]));
                        assert(digits_value(ds.take(j + 1)) > u64::MAX as int);
                        lemma_digits_value_grows(ds, j + 1, ds.len() as int);
                        assert(ds.take(ds.len() as int) =~= ds);
                        assert(digits_value(ds) > i64::MAX as int);
                        assert(-digits_value(ds) < i64::MIN as int);
                    }
                }
                return None;
            },
        }
    }
    proof {
        assert(ds.take((n - start) as int) =~= ds);
        assert(all_digits(ds));
        lemma_digits_value_nonneg(ds);
    }
    if neg {
        if acc <= 9223372036854775808u64 {
            if acc == 9223372036854775808u64 {
                Some(i64::MIN)
            } else {
                Some(-(acc as i64))
            }
        } else {
            None
        }
    } else {
        if acc <= 9223372036854775807u64 {
            Some(acc as i64)
        } else {
            None
        }
    }
}

} // verus!
