//! Decimal text of integers: rendering, left padding and parsing.

use vstd::prelude::*;
use vstd::string::*;

verus! {

broadcast use vstd::string::group_string_axioms;

/// The ASCII character of the decimal digit `d`.
pub open spec fn digit_char(d: int) -> char {
    (d + 48) as char
}

/// Whether `c` is one of the ASCII digits `0` to `9`.
pub open spec fn is_digit(c: char) -> bool {
    '0' <= c && c <= '9'
}

/// The value of the ASCII digit `c`.
pub open spec fn digit_value(c: char) -> int {
    c as int - 48
}

/// The decimal text of `n`, most significant digit first, without leading zeros.
pub open spec fn decimal(n: nat) -> Seq<char>
    decreases n,
{
    if n < 10 {
        seq![digit_char(n as int)]
    } else {
        decimal(n / 10).push(digit_char((n % 10) as int))
    }
}

/// The decimal text of `i`, with a leading `-` when `i` is negative.
pub open spec fn signed_decimal(i: int) -> Seq<char> {
    if i < 0 {
        seq!['-'] + decimal((-i) as nat)
    } else {
        decimal(i as nat)
    }
}

/// `s` padded on the left with `fill` up to `width` characters; `s` itself when it is
/// already that long.
pub open spec fn pad_left(s: Seq<char>, fill: char, width: nat) -> Seq<char> {
    if s.len() >= width {
        s
    } else {
        Seq::new((width - s.len()) as nat, |i: int| fill) + s
    }
}

/// Whether every character of `s` is an ASCII digit.
pub open spec fn all_digits(s: Seq<char>) -> bool {
    forall|i: int| 0 <= i < s.len() ==> #[trigger] is_digit(s[i])
}

/// The value of the digit string `s`, read in base ten.
pub open spec fn digits_value(s: Seq<char>) -> int
    decreases s.len(),
{
    if s.len() == 0 {
        0
    } else {
        digits_value(s.drop_last()) * 10 + digit_value(s.last())
    }
}

/// What parsing `s` as an `i64` gives: an optional `+` or `-` sign, then one or more
/// ASCII digits, whose value must lie in the range of `i64`.
pub open spec fn parse_i64_spec(s: Seq<char>) -> Option<int> {
    let negative = s.len() > 0 && s[0] == '-';
    let body = if s.len() > 0 && (s[0] == '-' || s[0] == '+') {
        s.drop_first()
    } else {
        s
    };
    if body.len() == 0 || !all_digits(body) {
        None
    } else {
        let v = if negative {
            -digits_value(body)
        } else {
            digits_value(body)
        };
        if i64::MIN <= v && v <= i64::MAX {
            Some(v)
        } else {
            None
        }
    }
}

/// The characters of `s`, in order.
pub fn chars_of(s: &str) -> (v: Vec<char>)
    ensures
        v@ == s@,
{
    let mut v: Vec<char> = Vec::new();
    for c in it: s.chars()
        invariant
            v@ == it.seq().take(it.index() as int),
            it.seq() == s@,
    {
        v.push(c);
    }
    v
}

/// A string holding the single digit `d`.
fn digit_str(d: u64) -> (s: &'static str)
    requires
        d < 10,
    ensures
        s@ == seq![digit_char(d as int)],
{
    if d == 0 {
        proof {
            reveal_strlit("0");
        }
        "0"
    } else if d == 1 {
        proof {
            reveal_strlit("1");
        }
        "1"
    } else if d == 2 {
        proof {
            reveal_strlit("2");
        }
        "2"
    } else if d == 3 {
        proof {
            reveal_strlit("3");
        }
        "3"
    } else if d == 4 {
        proof {
            reveal_strlit("4");
        }
        "4"
    } else if d == 5 {
        proof {
            reveal_strlit("5");
        }
        "5"
    } else if d == 6 {
        proof {
            reveal_strlit("6");
        }
        "6"
    } else if d == 7 {
        proof {
            reveal_strlit("7");
        }
        "7"
    } else if d == 8 {
        proof {
            reveal_strlit("8");
        }
        "8"
    } else {
        proof {
            reveal_strlit("9");
        }
        "9"
    }
}

/// The decimal text of `n`, as `n.to_string()` writes it.
pub fn u64_to_decimal(n: u64) -> (s: String)
    ensures
        s@ == decimal(n as nat),
{
    let mut acc = String::from_str(digit_str(n % 10));
    let mut rest: u64 = n / 10;
    assert(decimal(n as nat) == (if rest > 0 {
        decimal(rest as nat)
    } else {
        Seq::<char>::empty()
    }) + acc@);
    while rest > 0
        invariant
            decimal(n as nat) == (if rest > 0 {
                decimal(rest as nat)
            } else {
                Seq::<char>::empty()
            }) + acc@,
        decreases rest,
    {
        let piece = String::from_str(digit_str(rest % 10));
        let ghost old_acc = acc@;
        acc = piece.concat(acc.as_str());
        let ghost old_rest = rest;
        rest = rest / 10;
        assert(decimal(old_rest as nat) == (if rest > 0 {
            decimal(rest as nat)
        } else {
            Seq::<char>::empty()
        }) + seq![digit_char((old_rest % 10) as int)]);
    }
    acc
}

/// The decimal text of `i`, as `i.to_string()` writes it.
pub fn i16_to_decimal(i: i16) -> (s: String)
    ensures
        s@ == signed_decimal(i as int),
{
    if i < 0 {
        let magnitude: u64 = (-(i as i32)) as u64;
        let digits = u64_to_decimal(magnitude);
        proof {
            reveal_strlit("-");
        }
        String::from_str("-").concat(digits.as_str())
    } else {
        u64_to_decimal(i as u64)
    }
}

/// `s` padded on the left with `0` up to `width` characters, as the format `{:0>width}`
/// writes it.
pub fn pad_left_zeros(s: String, width: usize) -> (r: String)
    ensures
        r@ == pad_left(s@, '0', width as nat),
{
    let len = s.as_str().unicode_len();
    if len >= width {
        return s;
    }
    let mut prefix = String::new();
    let mut k: usize = 0;
    while k < width - len
        invariant
            len == s@.len(),
            len < width,
            k <= width - len,
            prefix@ == Seq::new(k as nat, |i: int| '0'),
        decreases width - len - k,
    {
        proof {
            reveal_strlit("0");
        }
        prefix.append("0");
        k = k + 1;
        assert(prefix@ =~= Seq::new(k as nat, |i: int| '0'));
    }
    prefix.concat(s.as_str())
}

/// `min(10 * x + d, cap)` depends on `x` only through `min(x, cap)`.
proof fn lemma_capped_step(x: int, d: int, cap: int)
    requires
        x >= 0,
        0 <= d,
        cap >= 0,
    ensures
        ({
            let cx = if x < cap {
                x
            } else {
                cap
            };
            let a = 10 * cx + d;
            let b = 10 * x + d;
            (if a < cap {
                a
            } else {
                cap
            }) == (if b < cap {
                b
            } else {
                cap
            })
        }),
{
}

/// Parses `s` as an `i64`, as `s.parse::<i64>()` does.
pub fn parse_i64(s: &str) -> (r: Option<i64>)
    ensures
        match r {
            Some(v) => parse_i64_spec(s@) == Some(v as int),
            None => parse_i64_spec(s@) is None,
        },
{
    let chars = chars_of(s);
    let n = chars.len();
    let negative = n > 0 && chars[0] == '-';
    let start: usize = if n > 0 && (chars[0] == '-' || chars[0] == '+') {
        1
    } else {
        0
    };
    let ghost body = if n > 0 && (s@[0] == '-' || s@[0] == '+') {
        s@.drop_first()
    } else {
        s@
    };
    assert(body =~= s@.subrange(start as int, n as int));
    if start == n {
        assert(body.len() == 0);
        return None;
    }
    let cap: u128 = 9223372036854775809;
    let mut acc: u128 = 0;
    let mut i = start;
    while i < n
        invariant
            start <= i <= n,
            n == chars@.len(),
            chars@ == s@,
            body == s@.subrange(start as int, n as int),
            body == (if s@.len() > 0 && (s@[0] == '-' || s@[0] == '+') {
                s@.drop_first()
            } else {
                s@
            }),
            all_digits(s@.subrange(start as int, i as int)),
            acc as int == (if digits_value(s@.subrange(start as int, i as int)) < cap {
                digits_value(s@.subrange(start as int, i as int))
            } else {
                cap as int
            }),
            cap == 9223372036854775809,
        decreases n - i,
    {
        let c = chars[i];
        if !('0' <= c && c <= '9') {
            assert(!is_digit(body[i - start]));
            return None;
        }
        let ghost prev = s@.subrange(start as int, i as int);
        let ghost next = s@.subrange(start as int, i + 1);
        assert(next.drop_last() =~= prev);
        assert(digits_value(prev) >= 0) by {
            lemma_digits_value_nonneg(prev);
        }
        proof {
            lemma_capped_step(digits_value(prev), digit_value(c), cap as int);
        }
        let d = (c as u32 - 48) as u128;
        let stepped = acc * 10 + d;
        acc = if stepped < cap {
            stepped
        } else {
            cap
        };
        i = i + 1;
        assert(all_digits(next));
    }
    assert(body =~= s@.subrange(start as int, n as int));
    if negative {
        if acc <= 9223372036854775808 {
            let v: i128 = -(acc as i128);
            Some(v as i64)
        } else {
            None
        }
    } else {
        if acc <= 9223372036854775807 {
            Some(acc as i64)
        } else {
            None
        }
    }
}

/// A digit string has a value of at least zero.
proof fn lemma_digits_value_nonneg(s: Seq<char>)
    requires
        all_digits(s),
    ensures
        digits_value(s) >= 0,
    decreases s.len(),
{
    if s.len() > 0 {
        assert(all_digits(s.drop_last())) by {
            assert forall|i: int| 0 <= i < s.drop_last().len() implies #[trigger] is_digit(
                s.drop_last()[i],
            ) by {
                assert(s.drop_last()[i] == s[i]);
            }
        }
        lemma_digits_value_nonneg(s.drop_last());
        assert(is_digit(s[s.len() - 1]));
    }
}

/// The decimal text of `n` is a nonempty string of digits whose value is `n`.
pub proof fn lemma_decimal_digits(n: nat)
    ensures
        decimal(n).len() >= 1,
        all_digits(decimal(n)),
        digits_value(decimal(n)) == n,
    decreases n,
{
    if n >= 10 {
        lemma_decimal_digits(n / 10);
        let d = decimal(n);
        assert(d.drop_last() =~= decimal(n / 10));
        assert(d.last() == digit_char((n % 10) as int));
        assert(digit_value(digit_char((n % 10) as int)) == n % 10);
        assert((n / 10) * 10 + n % 10 == n);
        assert(digits_value(d) == digits_value(d.drop_last()) * 10 + digit_value(d.last()));
    } else {
        let d = decimal(n);
        assert(d.drop_last() =~= Seq::<char>::empty());
        assert(digits_value(d) == digits_value(d.drop_last()) * 10 + digit_value(d.last()));
        assert(digit_value(digit_char(n as int)) == n);
    }
}

/// Parsing the decimal text of a number gives the number back.
pub proof fn law_parse_reads_decimal(n: nat)
    requires
        n <= i64::MAX,
    ensures
        parse_i64_spec(decimal(n)) == Some(n as int),
{
    lemma_decimal_digits(n);
    assert(is_digit(decimal(n)[0]));
}

/// Different numbers have different decimal texts.
pub proof fn law_decimal_distinct(n: nat, m: nat)
    ensures
        decimal(n) == decimal(m) <==> n == m,
{
    lemma_decimal_digits(n);
    lemma_decimal_digits(m);
}

/// Ten to the power `k`.
pub open spec fn pow10(k: nat) -> nat
    decreases k,
{
    if k == 0 {
        1
    } else {
        10 * pow10((k - 1) as nat)
    }
}

/// A number below ten to the power `k` has at most `k` decimal digits.
proof fn lemma_decimal_short(n: nat, k: nat)
    requires
        n < pow10(k),
        k >= 1,
    ensures
        decimal(n).len() <= k,
    decreases n,
{
    if n >= 10 {
        let p = pow10((k - 1) as nat);
        assert(n < 10 * p);
        assert(n / 10 < p) by (nonlinear_arith)
            requires
                n < 10 * p,
        ;
        assert(k >= 2) by {
            if k == 1 {
                assert(pow10(0) == 1);
            }
        }
        lemma_decimal_short(n / 10, (k - 1) as nat);
    }
}

/// Leading zeros do not change the value of a digit string.
proof fn lemma_zeros_keep_value(m: nat, s: Seq<char>)
    ensures
        digits_value(Seq::new(m, |i: int| '0') + s) == digits_value(s),
    decreases s.len(), m,
{
    let z = Seq::new(m, |i: int| '0');
    if s.len() == 0 {
        assert(z + s =~= z);
        if m > 0 {
            lemma_zeros_keep_value((m - 1) as nat, s);
            assert(z.drop_last() =~= Seq::new((m - 1) as nat, |i: int| '0') + s);
        }
    } else {
        lemma_zeros_keep_value(m, s.drop_last());
        assert((z + s).drop_last() =~= z + s.drop_last());
    }
}

/// The decimal text of `n` padded with zeros to `width` characters, when `n` has at
/// most `width` digits, is exactly `width` digits long and reads back as `n`.
pub proof fn law_padded_decimal_reads_back(n: nat, width: nat)
    requires
        n < pow10(width),
        width >= 1,
    ensures
        pad_left(decimal(n), '0', width).len() == width,
        all_digits(pad_left(decimal(n), '0', width)),
        digits_value(pad_left(decimal(n), '0', width)) == n,
{
    lemma_decimal_short(n, width);
    lemma_decimal_digits(n);
    let d = decimal(n);
    if d.len() < width {
        let m = (width - d.len()) as nat;
        lemma_zeros_keep_value(m, d);
        let p = Seq::new(m, |i: int| '0') + d;
        assert forall|i: int| 0 <= i < p.len() implies #[trigger] is_digit(p[i]) by {
            if i >= m {
                assert(p[i] == d[i - m]);
            }
        }
    }
}

} // verus!
