//! Decimal numerals: their value as a natural number, and comparison of
//! numerals of any length without computing that value.

use vstd::prelude::*;
use vstd::string::*;

verus! {

/// `c` is one of the ten ASCII digits.
pub open spec fn is_digit(c: char) -> bool {
    '0' <= c && c <= '9'
}

/// The value of a digit character.
pub open spec fn digit_value(c: char) -> nat {
    (c as u32 - '0' as u32) as nat
}

/// The character that stands for `d`, for `d` below ten.
pub open spec fn digit_char(d: nat) -> char {
    if d == 0 {
        '0'
    } else if d == 1 {
        '1'
    } else if d == 2 {
        '2'
    } else if d == 3 {
        '3'
    } else if d == 4 {
        '4'
    } else if d == 5 {
        '5'
    } else if d == 6 {
        '6'
    } else if d == 7 {
        '7'
    } else if d == 8 {
        '8'
    } else {
        '9'
    }
}

/// Every character of `s` is a digit.
pub open spec fn all_digits(s: Seq<char>) -> bool {
    forall|i: int| 0 <= i < s.len() ==> is_digit(#[trigger] s[i])
}

/// A canonical numeral: non-empty, digits only, and no leading zero
/// unless the numeral is `0` itself.
pub open spec fn is_canonical_decimal(s: Seq<char>) -> bool {
    &&& s.len() > 0
    &&& all_digits(s)
    &&& (s.len() > 1 ==> s[0] != '0')
}

/// The number that the digit sequence `s` denotes, most significant digit first.
pub open spec fn decimal_value(s: Seq<char>) -> nat
    decreases s.len(),
{
    if s.len() == 0 {
        0
    } else {
        10 * decimal_value(s.drop_last()) + digit_value(s.last())
    }
}

/// The canonical numeral of `n`.
pub open spec fn decimal_digits(n: nat) -> Seq<char>
    decreases n,
{
    if n < 10 {
        seq![digit_char(n)]
    } else {
        decimal_digits(n / 10).push(digit_char(n % 10))
    }
}

/// Ten to the power `n`.
pub open spec fn pow10(n: nat) -> nat
    decreases n,
{
    if n == 0 {
        1
    } else {
        10 * pow10((n - 1) as nat)
    }
}

pub proof fn lemma_pow10_monotonic(a: nat, b: nat)
    requires
        a <= b,
    ensures
        pow10(a) <= pow10(b),
        pow10(a) >= 1,
    decreases b,
{
    if a == 0 {
        if b > 0 {
            lemma_pow10_monotonic(0, (b - 1) as nat);
        }
    } else {
        lemma_pow10_monotonic((a - 1) as nat, (b - 1) as nat);
    }
}

/// A numeral of `n` digits denotes a number below `10^n`, and at least
/// `10^(n-1)` when its first digit is not zero.
pub proof fn lemma_decimal_value_bounds(s: Seq<char>)
    requires
        all_digits(s),
    ensures
        decimal_value(s) < pow10(s.len()),
        s.len() > 0 && s[0] != '0' ==> decimal_value(s) >= pow10((s.len() - 1) as nat),
    decreases s.len(),
{
    if s.len() == 0 {
    } else {
        let p = s.drop_last();
        assert(all_digits(p)) by {
            assert forall|i: int| 0 <= i < p.len() implies is_digit(#[trigger] p[i]) by {
                assert(p[i] == s[i]);
            }
        }
        assert(is_digit(s.last()));
        lemma_decimal_value_bounds(p);
        if s.len() == 1 {
            assert(p.len() == 0);
            assert(decimal_value(p) == 0);
            assert(pow10(1) == 10 * pow10(0));
        } else {
            assert(p[0] == s[0]);
        }
    }
}

/// Of two numerals of the same length that agree before position `i`,
/// the one with the smaller digit at `i` denotes the smaller number.
pub proof fn lemma_decimal_first_difference(a: Seq<char>, b: Seq<char>, i: int)
    requires
        all_digits(a),
        all_digits(b),
        a.len() == b.len(),
        0 <= i < a.len(),
        forall|j: int| 0 <= j < i ==> a[j] == b[j],
        a[i] < b[i],
    ensures
        decimal_value(a) < decimal_value(b),
    decreases a.len(),
{
    let pa = a.drop_last();
    let pb = b.drop_last();
    assert(is_digit(a.last()) && is_digit(b.last()));
    if i == a.len() - 1 {
        assert(pa =~= pb);
    } else {
        assert(all_digits(pa)) by {
            assert forall|k: int| 0 <= k < pa.len() implies is_digit(#[trigger] pa[k]) by {
                assert(pa[k] == a[k]);
            }
        }
        assert(all_digits(pb)) by {
            assert forall|k: int| 0 <= k < pb.len() implies is_digit(#[trigger] pb[k]) by {
                assert(pb[k] == b[k]);
            }
        }
        assert forall|j: int| 0 <= j < i implies pa[j] == pb[j] by {
            assert(pa[j] == a[j] && pb[j] == b[j]);
        }
        assert(pa[i] == a[i] && pb[i] == b[i]);
        lemma_decimal_first_difference(pa, pb, i);
    }
}

/// The numeral of `n` is canonical and denotes `n`.
pub proof fn lemma_decimal_digits_value(n: nat)
    ensures
        is_canonical_decimal(decimal_digits(n)),
        decimal_value(decimal_digits(n)) == n,
    decreases n,
{
    if n < 10 {
        let s = decimal_digits(n);
        assert(s.len() == 1);
        assert(s.drop_last().len() == 0);
        assert(decimal_value(s.drop_last()) == 0);
        assert(s.last() == digit_char(n));
        assert(digit_value(digit_char(n)) == n);
    } else {
        let p = decimal_digits(n / 10);
        let s = p.push(digit_char(n % 10));
        lemma_decimal_digits_value(n / 10);
        assert(s.drop_last() =~= p);
        assert(s.last() == digit_char(n % 10));
        assert(digit_value(digit_char(n % 10)) == n % 10);
        assert(is_digit(digit_char(n % 10)));
        assert(s[0] == p[0]);
        if p.len() == 1 {
            assert(p.drop_last().len() == 0);
            assert(decimal_value(p.drop_last()) == 0);
            assert(decimal_value(p) == digit_value(p[0]));
        }
        assert(all_digits(s)) by {
            assert forall|i: int| 0 <= i < s.len() implies is_digit(#[trigger] s[i]) by {
                if i < p.len() {
                    assert(s[i] == p[i]);
                }
            }
        }
    }
}

/// Whether `s` is a canonical numeral.
pub fn is_canonical(s: &str) -> (r: bool)
    ensures
        r == is_canonical_decimal(s@),
{
    let n: usize = s.unicode_len();
    if n == 0 {
        return false;
    }
    let mut i: usize = 0;
    while i < n
        invariant
            n == s@.len(),
            0 <= i <= n,
            forall|j: int| 0 <= j < i ==> is_digit(#[trigger] s@[j]),
        decreases n - i,
    {
        let c = s.get_char(i);
        if !('0' <= c && c <= '9') {
            return false;
        }
        i += 1;
    }
    if n > 1 && s.get_char(0) == '0' {
        return false;
    }
    true
}

/// Whether the canonical numeral `a` denotes a smaller number than the
/// canonical numeral `b`, decided on the digits alone.
pub fn decimal_less_than(a: &str, b: &str) -> (r: bool)
    requires
        is_canonical_decimal(a@),
        is_canonical_decimal(b@),
    ensures
        r == (decimal_value(a@) < decimal_value(b@)),
{
    let la: usize = a.unicode_len();
    let lb: usize = b.unicode_len();
    proof {
        lemma_decimal_value_bounds(a@);
        lemma_decimal_value_bounds(b@);
    }
    if la < lb {
        proof {
            lemma_pow10_monotonic(la as nat, (lb - 1) as nat);
            if a@[0] == '0' {
            }
        }
        return true;
    }
    if la > lb {
        proof {
            lemma_pow10_monotonic(lb as nat, (la - 1) as nat);
        }
        return false;
    }
    let mut i: usize = 0;
    while i < la
        invariant
            la == a@.len(),
            la == b@.len(),
            0 <= i <= la,
            all_digits(a@),
            all_digits(b@),
            forall|j: int| 0 <= j < i ==> a@[j] == b@[j],
        decreases la - i,
    {
        let ca = a.get_char(i);
        let cb = b.get_char(i);
        if ca != cb {
            proof {
                if ca < cb {
                    lemma_decimal_first_difference(a@, b@, i as int);
                } else {
                    lemma_decimal_first_difference(b@, a@, i as int);
                }
            }
            return ca < cb;
        }
        i += 1;
    }
    assert(a@ =~= b@);
    false
}

/// The single-character numeral of a digit.
fn digit_str(d: u8) -> (r: &'static str)
    requires
        d < 10,
    ensures
        r@ == seq![digit_char(d as nat)],
{
    proof {
        reveal_strlit("0");
        reveal_strlit("1");
        reveal_strlit("2");
        reveal_strlit("3");
        reveal_strlit("4");
        reveal_strlit("5");
        reveal_strlit("6");
        reveal_strlit("7");
        reveal_strlit("8");
        reveal_strlit("9");
    }
    let r = if d == 0 {
        "0"
    } else if d == 1 {
        "1"
    } else if d == 2 {
        "2"
    } else if d == 3 {
        "3"
    } else if d == 4 {
        "4"
    } else if d == 5 {
        "5"
    } else if d == 6 {
        "6"
    } else if d == 7 {
        "7"
    } else if d == 8 {
        "8"
    } else {
        "9"
    };
    assert(r@ =~= seq![digit_char(d as nat)]);
    r
}

/// The canonical numeral of `n` as a string.
pub fn u128_to_decimal(n: u128) -> (r: String)
    ensures
        r@ == decimal_digits(n as nat),
    decreases n,
{
    if n < 10 {
        String::from_str(digit_str(n as u8))
    } else {
        let mut s = u128_to_decimal(n / 10);
        s.append(digit_str((n % 10) as u8));
        assert(s@ =~= decimal_digits((n / 10) as nat).push(digit_char((n % 10) as nat)));
        s
    }
}

/// The canonical numeral of `n` as a string.
pub fn u64_to_decimal(n: u64) -> (r: String)
    ensures
        r@ == decimal_digits(n as nat),
{
    u128_to_decimal(n as u128)
}

} // verus!
