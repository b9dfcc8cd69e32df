//! Exact decimal numbers, held as their canonical digit strings: a sign, the
//! integer digits without leading zeros, and the fraction digits without
//! trailing zeros (empty when the fractional part is zero).
//!
//! Durations are carried through the pipeline as such numbers, and the
//! formatting rule of the rendered document is stated over them.

use vstd::prelude::*;
use vstd::string::StrSliceExecFns;
use vstd::string::StringExecFns;

use crate::digits::dec_digits;
use crate::digits::is_digit;
use crate::digits::lemma_dec_digits_shape;
use crate::digits::u64_string;

verus! {

/// Whether every character of `t` with index in `[lo, hi)` is a decimal
/// digit.
pub open spec fn digits_in(t: Seq<char>, lo: int, hi: int) -> bool {
    forall|j: int| lo <= j < hi ==> is_digit(#[trigger] t[j])
}

/// The length of the sign prefix of a decimal text: one for a leading minus
/// sign, zero otherwise.
pub open spec fn sign_len(t: Seq<char>) -> int {
    if t.len() > 0 && t[0] == '-' {
        1
    } else {
        0
    }
}

/// The index of the first dot character of `t` at or after `i`, or the length
/// of `t` when there is none.
pub open spec fn find_dot_from(t: Seq<char>, i: int) -> int
    decreases t.len() - i,
{
    if i < 0 || i >= t.len() {
        t.len() as int
    } else if t[i] == '.' {
        i
    } else {
        find_dot_from(t, i + 1)
    }
}

/// Whether `t` is a decimal number text: an optional minus sign, one or more
/// integer digits, and optionally a dot followed by one or more fraction
/// digits.
pub open spec fn accepts(t: Seq<char>) -> bool {
    let b = sign_len(t);
    let p = find_dot_from(t, b);
    &&& p - b >= 1
    &&& digits_in(t, b, p)
    &&& (p < t.len() ==> p + 1 < t.len() && digits_in(t, p + 1, t.len() as int))
}

/// The integer digits of a decimal number text, leading zeros included.
pub open spec fn int_digits_of(t: Seq<char>) -> Seq<char> {
    t.subrange(sign_len(t), find_dot_from(t, sign_len(t)))
}

/// The fraction digits of a decimal number text, trailing zeros included.
pub open spec fn frac_digits_of(t: Seq<char>) -> Seq<char> {
    let p = find_dot_from(t, sign_len(t));
    if p < t.len() {
        t.subrange(p + 1, t.len() as int)
    } else {
        Seq::empty()
    }
}

/// `u` with its leading zeros removed, keeping at least one digit.
pub open spec fn strip_leading_zeros(u: Seq<char>) -> Seq<char>
    decreases u.len(),
{
    if u.len() > 1 && u[0] == '0' {
        strip_leading_zeros(u.subrange(1, u.len() as int))
    } else {
        u
    }
}

/// `u` with its trailing zeros removed, possibly leaving it empty.
pub open spec fn strip_trailing_zeros(u: Seq<char>) -> Seq<char>
    decreases u.len(),
{
    if u.len() > 0 && u[u.len() - 1] == '0' {
        strip_trailing_zeros(u.subrange(0, u.len() - 1))
    } else {
        u
    }
}

/// Whether a decimal number text denotes the value zero.
pub open spec fn parsed_is_zero(t: Seq<char>) -> bool {
    strip_leading_zeros(int_digits_of(t)) == seq!['0'] && strip_trailing_zeros(
        frac_digits_of(t),
    ).len() == 0
}

/// An exact decimal number in canonical form.
#[derive(Clone, Debug)]
pub struct Decimal {
    /// Whether the value is negative; never set on zero.
    pub negative: bool,
    /// The integer digits, without leading zeros.
    pub int_part: String,
    /// The fraction digits, without trailing zeros; empty for a whole value.
    pub frac_part: String,
}

impl Decimal {
    /// Canonical form: digit strings with no leading zero on the integer
    /// part, no trailing zero on the fraction, and no negative zero.
    pub open spec fn wf(&self) -> bool {
        &&& self.int_part@.len() >= 1
        &&& digits_in(self.int_part@, 0, self.int_part@.len() as int)
        &&& (self.int_part@.len() == 1 || self.int_part@[0] != '0')
        &&& digits_in(self.frac_part@, 0, self.frac_part@.len() as int)
        &&& (self.frac_part@.len() == 0 || self.frac_part@[self.frac_part@.len() - 1] != '0')
        &&& (self.negative ==> !self.spec_is_zero())
    }

    /// Whether the value is zero.
    pub open spec fn spec_is_zero(&self) -> bool {
        self.int_part@ == seq!['0'] && self.frac_part@.len() == 0
    }

    /// Whether the value is strictly greater than zero.
    pub open spec fn spec_positive(&self) -> bool {
        !self.negative && !self.spec_is_zero()
    }

    /// The sign prefix of the displayed value.
    pub open spec fn spec_sign_text(&self) -> Seq<char> {
        if self.negative {
            seq!['-']
        } else {
            Seq::empty()
        }
    }

    /// The natural decimal string of the value: sign, integer digits, and the
    /// fraction digits after a dot only when the fraction is nonzero.
    pub open spec fn spec_natural_text(&self) -> Seq<char> {
        self.spec_sign_text() + self.int_part@ + (if self.frac_part@.len() == 0 {
            Seq::<char>::empty()
        } else {
            seq!['.'] + self.frac_part@
        })
    }

    /// The display string under the rule that a whole value shows exactly one
    /// zero after the dot: sign, integer digits, a dot, then the fraction
    /// digits, or the single digit zero when the fraction is empty.
    pub open spec fn spec_with_zero_text(&self) -> Seq<char> {
        self.spec_sign_text() + self.int_part@ + seq!['.'] + (if self.frac_part@.len() == 0 {
            seq!['0']
        } else {
            self.frac_part@
        })
    }

    /// The whole number `n` as a decimal value.
    pub fn from_u64(n: u64) -> (d: Decimal)
        ensures
            d.wf(),
            !d.negative,
            d.int_part@ == dec_digits(n as int),
            d.frac_part@.len() == 0,
    {
        let d = Decimal { negative: false, int_part: u64_string(n), frac_part: String::new() };
        proof {
            lemma_dec_digits_shape(n as int);
        }
        d
    }

    /// Whether the value is strictly greater than zero.
    pub fn is_positive(&self) -> (r: bool)
        ensures
            r == self.spec_positive(),
    {
        if self.negative {
            return false;
        }
        let zero = self.int_part.as_str().unicode_len() == 1 && self.int_part.as_str().get_char(0)
            == '0' && self.frac_part.as_str().unicode_len() == 0;
        proof {
            if zero {
                assert(self.int_part@ =~= seq!['0']);
            }
            if self.spec_is_zero() {
                assert(self.int_part@ == seq!['0']);
                assert(self.int_part@.len() == 1 && self.int_part@[0] == '0');
            }
        }
        !zero
    }

    /// The display string of the value under the whole-value rule of
    /// [`Decimal::spec_with_zero_text`].
    pub fn to_text_with_zero(&self) -> (r: String)
        ensures
            r@ == self.spec_with_zero_text(),
    {
        let mut s = String::new();
        if self.negative {
            s.append("-");
        }
        s.append(self.int_part.as_str());
        s.append(".");
        if self.frac_part.as_str().is_empty() {
            s.append("0");
        } else {
            s.append(self.frac_part.as_str());
        }
        proof {
            reveal_strlit("-");
            reveal_strlit(".");
            reveal_strlit("0");
            assert("-"@ =~= seq!['-']);
            assert("."@ =~= seq!['.']);
            assert("0"@ =~= seq!['0']);
            assert(s@ =~= self.spec_with_zero_text());
        }
        s
    }
}

/// `find_dot_from(t, i)` is the first dot index in `[i, t.len())`, or the
/// length of `t` when that range holds no dot.
proof fn lemma_find_dot(t: Seq<char>, i: int)
    requires
        0 <= i <= t.len(),
    ensures
        i <= find_dot_from(t, i) <= t.len(),
        find_dot_from(t, i) < t.len() ==> t[find_dot_from(t, i)] == '.',
        forall|j: int| i <= j < find_dot_from(t, i) ==> t[j] != '.',
    decreases t.len() - i,
{
    if i < t.len() && t[i] != '.' {
        lemma_find_dot(t, i + 1);
    }
}

/// Stripping leading zeros from a nonempty digit string leaves a nonempty
/// digit string whose first digit is nonzero unless it is the single digit
/// zero.
proof fn lemma_strip_leading_props(u: Seq<char>)
    requires
        u.len() >= 1,
        digits_in(u, 0, u.len() as int),
    ensures
        strip_leading_zeros(u).len() >= 1,
        digits_in(strip_leading_zeros(u), 0, strip_leading_zeros(u).len() as int),
        strip_leading_zeros(u).len() == 1 || strip_leading_zeros(u)[0] != '0',
    decreases u.len(),
{
    if u.len() > 1 && u[0] == '0' {
        let v = u.subrange(1, u.len() as int);
        assert(digits_in(v, 0, v.len() as int));
        lemma_strip_leading_props(v);
    }
}

/// Stripping trailing zeros from a digit string leaves a digit string whose
/// last digit, if any, is nonzero.
proof fn lemma_strip_trailing_props(u: Seq<char>)
    requires
        digits_in(u, 0, u.len() as int),
    ensures
        strip_trailing_zeros(u).len() <= u.len(),
        digits_in(strip_trailing_zeros(u), 0, strip_trailing_zeros(u).len() as int),
        strip_trailing_zeros(u).len() == 0 || strip_trailing_zeros(u)[strip_trailing_zeros(
            u,
        ).len() - 1] != '0',
    decreases u.len(),
{
    if u.len() > 0 && u[u.len() - 1] == '0' {
        let v = u.subrange(0, u.len() - 1);
        assert(digits_in(v, 0, v.len() as int));
        lemma_strip_trailing_props(v);
    }
}

/// Whether `c` is a decimal digit.
fn is_digit_char(c: char) -> (r: bool)
    ensures
        r == is_digit(c),
{
    c == '0' || c == '1' || c == '2' || c == '3' || c == '4' || c == '5' || c == '6' || c == '7'
        || c == '8' || c == '9'
}

impl Decimal {
    /// Parses a decimal number text — an optional minus sign, integer
    /// digits, and optionally a dot with fraction digits — into its
    /// canonical form, normalizing a negative zero to plain zero.
    pub fn parse(s: &str) -> (r: Option<Decimal>)
        ensures
            r is Some <==> accepts(s@),
            r matches Some(d) ==> {
                &&& d.wf()
                &&& d.int_part@ == strip_leading_zeros(int_digits_of(s@))
                &&& d.frac_part@ == strip_trailing_zeros(frac_digits_of(s@))
                &&& d.negative == (sign_len(s@) == 1 && !parsed_is_zero(s@))
            },
    {
        let ghost t = s@;
        let n = s.unicode_len();
        let neg = n > 0 && s.get_char(0) == '-';
        let b: usize = if neg {
            1
        } else {
            0
        };
        proof {
            assert(sign_len(t) == b as int);
            lemma_find_dot(t, b as int);
        }
        let mut i: usize = b;
        while i < n && s.get_char(i) != '.'
            invariant
                b <= i <= n,
                n == t.len(),
                t == s@,
                find_dot_from(t, b as int) == find_dot_from(t, i as int),
            decreases n - i,
        {
            i += 1;
        }
        let dot: usize = i;
        proof {
            assert(dot as int == find_dot_from(t, b as int));
        }
        if dot == b {
            proof {
                assert(find_dot_from(t, sign_len(t)) == dot as int);
                assert(!accepts(t));
            }
            return None;
        }
        let mut j: usize = b;
        while j < dot
            invariant
                b <= j <= dot <= n,
                n == t.len(),
                t == s@,
                sign_len(t) == b as int,
                dot as int == find_dot_from(t, sign_len(t)),
                digits_in(t, b as int, j as int),
            decreases dot - j,
        {
            if !is_digit_char(s.get_char(j)) {
                proof {
                    assert(!is_digit(t[j as int]));
                }
                return None;
            }
            j += 1;
        }
        if dot < n {
            if dot + 1 == n {
                return None;
            }
            let mut k: usize = dot + 1;
            while k < n
                invariant
                    dot + 1 <= k <= n,
                    n == t.len(),
                    t == s@,
                    dot as int == find_dot_from(t, sign_len(t)),
                    digits_in(t, dot + 1, k as int),
                decreases n - k,
            {
                if !is_digit_char(s.get_char(k)) {
                    proof {
                        assert(!is_digit(t[k as int]));
                    }
                    return None;
                }
                k += 1;
            }
        }
        proof {
            assert(accepts(t));
        }
        let mut a: usize = b;
        while a + 1 < dot && s.get_char(a) == '0'
            invariant
                b <= a < dot <= n,
                n == t.len(),
                t == s@,
                strip_leading_zeros(t.subrange(b as int, dot as int)) == strip_leading_zeros(
                    t.subrange(a as int, dot as int),
                ),
            decreases dot - a,
        {
            proof {
                let u = t.subrange(a as int, dot as int);
                assert(u.subrange(1, u.len() as int) =~= t.subrange(a + 1, dot as int));
            }
            a += 1;
        }
        let int_part = String::from_str(s.substring_char(a, dot));
        proof {
            assert(int_part@ == strip_leading_zeros(int_digits_of(t)));
        }
        let mut e: usize = n;
        let frac_part: String;
        if dot < n {
            while e > dot + 1 && s.get_char(e - 1) == '0'
                invariant
                    dot + 1 <= e <= n,
                    n == t.len(),
                    t == s@,
                    strip_trailing_zeros(t.subrange(dot + 1, n as int)) == strip_trailing_zeros(
                        t.subrange(dot + 1, e as int),
                    ),
                decreases e,
            {
                proof {
                    let u = t.subrange(dot + 1, e as int);
                    assert(u.subrange(0, u.len() - 1) =~= t.subrange(dot + 1, e - 1));
                }
                e -= 1;
            }
            frac_part = String::from_str(s.substring_char(dot + 1, e));
            proof {
                assert(frac_part@ == strip_trailing_zeros(frac_digits_of(t)));
            }
        } else {
            frac_part = String::new();
            proof {
                assert(frac_digits_of(t).len() == 0);
                assert(frac_part@ =~= strip_trailing_zeros(frac_digits_of(t)));
            }
        }
        let zero = dot - a == 1 && s.get_char(a) == '0' && (dot == n || e == dot + 1);
        proof {
            if zero {
                assert(int_part@ =~= seq!['0']);
            }
            if parsed_is_zero(t) {
                assert(int_part@ == seq!['0']);
                assert(t.subrange(a as int, dot as int).len() == dot - a);
                assert(t.subrange(a as int, dot as int)[0] == t[a as int]);
                assert(dot - a == 1 && t[a as int] == '0');
            }
            assert(zero == parsed_is_zero(t));
            lemma_strip_leading_props(int_digits_of(t));
            lemma_strip_trailing_props(frac_digits_of(t));
        }
        let negative = neg && !zero;
        Some(Decimal { negative, int_part, frac_part })
    }
}

} // verus!
