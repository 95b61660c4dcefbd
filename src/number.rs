use vstd::prelude::*;

use crate::text::{
    all_digits, char_digit, char_is_digit, decimal_digits, digits_value, is_digit, push_char,
    push_decimal_digits, split_chars, split_on, texts_view,
};

verus! {

/// A decimal number as written: a sign, the digits read as one integer
/// (`mantissa`), and how many of them stand after the decimal point (`scale`).
/// `12.50` is `{ negative: false, mantissa: 1250, scale: 2 }`.
#[derive(Clone, Copy, Debug, PartialEq, Eq, Structural)]
pub struct Decimal {
    pub negative: bool,
    pub mantissa: u64,
    pub scale: usize,
}

/// The decimal point.
pub const POINT: char = '.';

/// The number that a token spells, if it is one: an optional `-`, then one
/// or more digits, then optionally a point and one or more digits, with the
/// digits together no larger than `u64::MAX`.
pub open spec fn decimal_of_text(t: Seq<char>) -> Option<Decimal> {
    let negative = t.len() > 0 && t[0] == '-';
    let body = if negative {
        t.subrange(1, t.len() as int)
    } else {
        t
    };
    let parts = split_on(body, POINT);
    let digits = if parts.len() == 2 {
        parts[0] + parts[1]
    } else {
        parts[0]
    };
    if (parts.len() == 1 || parts.len() == 2) && digit_run(parts[0]) && (parts.len() == 2
        ==> digit_run(parts[1])) && digits_value(digits) <= u64::MAX {
        Some(
            Decimal {
                negative,
                mantissa: digits_value(digits) as u64,
                scale: if parts.len() == 2 {
                    parts[1].len() as usize
                } else {
                    0
                },
            },
        )
    } else {
        None
    }
}

/// One or more decimal digits.
pub open spec fn digit_run(s: Seq<char>) -> bool {
    s.len() > 0 && all_digits(s)
}

/// `n` characters `0`.
pub open spec fn zeros(n: int) -> Seq<char> {
    Seq::new(if n > 0 { n as nat } else { 0 }, |i: int| '0')
}

/// The digits of a number padded with leading zeros so that at least one
/// digit stands before the point.
pub open spec fn padded_digits(d: Decimal) -> Seq<char> {
    let ds = decimal_digits(d.mantissa as nat);
    zeros(d.scale + 1 - ds.len()) + ds
}

/// How a number is written: the sign, the digits before the point, and when
/// the scale is not zero the point and exactly `scale` digits after it.
pub open spec fn decimal_text(d: Decimal) -> Seq<char> {
    let sign = if d.negative {
        seq!['-']
    } else {
        Seq::<char>::empty()
    };
    let p = padded_digits(d);
    if d.scale == 0 {
        sign + p
    } else {
        sign + p.subrange(0, p.len() - d.scale) + seq![POINT] + p.subrange(
            p.len() - d.scale,
            p.len() as int,
        )
    }
}

/// The value of a run of digits, if it fits in a `u64`.
fn digits_to_u64(v: &Vec<char>) -> (r: Option<u64>)
    requires
        all_digits(v@),
    ensures
        r is Some <==> digits_value(v@) <= u64::MAX,
        r matches Some(n) ==> n == digits_value(v@),
{
    let mut acc: u64 = 0;
    let mut i: usize = 0;
    while i < v.len()
        invariant
            i <= v@.len(),
            all_digits(v@),
            acc == digits_value(v@.subrange(0, i as int)),
        decreases v@.len() - i,
    {
        let d = char_digit(v[i]);
        proof {
            let next = v@.subrange(0, i + 1);
            assert(next.drop_last() == v@.subrange(0, i as int));
            assert(next.last() == v@[i as int]);
            assert(is_digit(v@[i as int]));
        }
        match acc.checked_mul(10) {
            Some(m) => match m.checked_add(d as u64) {
                Some(n) => {
                    acc = n;
                },
                None => {
                    proof {
                        lemma_digits_prefix_bound(v@, i as int + 1);
                    }
                    return None;
                },
            },
            None => {
                proof {
                    lemma_digits_prefix_bound(v@, i as int + 1);
                }
                return None;
            },
        }
        i = i + 1;
    }
    proof {
        assert(v@.subrange(0, v@.len() as int) == v@);
    }
    Some(acc)
}

/// A prefix of a run of digits is worth no more than the whole run.
proof fn lemma_digits_prefix_bound(s: Seq<char>, n: int)
    requires
        all_digits(s),
        0 <= n <= s.len(),
    ensures
        0 <= digits_value(s.subrange(0, n)) <= digits_value(s),
    decreases s.len() - n,
{
    lemma_digits_nonneg(s.subrange(0, n));
    if n < s.len() {
        lemma_digits_prefix_bound(s, n + 1);
        let next = s.subrange(0, n + 1);
        assert(next.drop_last() == s.subrange(0, n));
        assert(is_digit(next.last()));
    } else {
        assert(s.subrange(0, n) == s);
    }
}

/// A run of digits is worth zero or more.
proof fn lemma_digits_nonneg(s: Seq<char>)
    requires
        all_digits(s),
    ensures
        digits_value(s) >= 0,
    decreases s.len(),
{
    if s.len() > 0 {
        lemma_digits_nonneg(s.drop_last());
        assert(is_digit(s.last()));
    }
}

/// Whether every character of `v` is a digit.
fn only_digits(v: &Vec<char>) -> (r: bool)
    ensures
        r == all_digits(v@),
{
    let mut i: usize = 0;
    while i < v.len()
        invariant
            i <= v@.len(),
            forall|k: int| 0 <= k < i ==> is_digit(#[trigger] v@[k]),
        decreases v@.len() - i,
    {
        if !char_is_digit(v[i]) {
            return false;
        }
        i = i + 1;
    }
    true
}

/// Joins two runs of characters.
fn concat_chars(a: &Vec<char>, b: &Vec<char>) -> (r: Vec<char>)
    ensures
        r@ == a@ + b@,
{
    let mut r: Vec<char> = Vec::new();
    let mut i: usize = 0;
    while i < a.len()
        invariant
            i <= a@.len(),
            r@ == a@.subrange(0, i as int),
        decreases a@.len() - i,
    {
        r.push(a[i]);
        proof {
            assert(a@.subrange(0, i + 1) == a@.subrange(0, i as int).push(a@[i as int]));
        }
        i = i + 1;
    }
    let mut j: usize = 0;
    while j < b.len()
        invariant
            j <= b@.len(),
            r@ == a@ + b@.subrange(0, j as int),
        decreases b@.len() - j,
    {
        r.push(b[j]);
        proof {
            assert(a@ + b@.subrange(0, j + 1) =~= (a@ + b@.subrange(0, j as int)).push(
                b@[j as int],
            ));
        }
        j = j + 1;
    }
    proof {
        assert(b@.subrange(0, b@.len() as int) == b@);
    }
    r
}

impl Decimal {
    /// The whole number `n`.
    pub open spec fn from_int_spec(n: u64) -> Decimal {
        Decimal { negative: false, mantissa: n, scale: 0 }
    }

    /// The whole number `n`.
    pub fn from_int(n: u64) -> (r: Decimal)
        ensures
            r == Decimal::from_int_spec(n),
    {
        Decimal { negative: false, mantissa: n, scale: 0 }
    }

    /// Reads a number token such as `12`, `-3` or `0.25`.
    pub fn parse(t: &Vec<char>) -> (r: Option<Decimal>)
        ensures
            r == decimal_of_text(t@),
    {
        let negative = t.len() > 0 && t[0] == '-';
        let mut body: Vec<char> = Vec::new();
        let mut i: usize = if negative {
            1
        } else {
            0
        };
        let ghost start = i as int;
        while i < t.len()
            invariant
                start == (if negative {
                    1int
                } else {
                    0int
                }),
                negative == (t@.len() > 0 && t@[0] == '-'),
                start <= i <= t@.len(),
                body@ == t@.subrange(start, i as int),
            decreases t@.len() - i,
        {
            body.push(t[i]);
            proof {
                assert(t@.subrange(start, i + 1) == t@.subrange(start, i as int).push(t@[i as int]));
            }
            i = i + 1;
        }
        proof {
            if !negative {
                assert(t@.subrange(0, t@.len() as int) == t@);
            }
        }
        let ghost spec_body = if negative {
            t@.subrange(1, t@.len() as int)
        } else {
            t@
        };
        assert(body@ == spec_body);
        let parts = split_chars(&body, POINT);
        proof {
            assert(texts_view(parts@).len() == parts@.len());
            assert(texts_view(parts@) == split_on(spec_body, POINT));
        }
        if parts.len() != 1 && parts.len() != 2 {
            return None;
        }
        proof {
            assert(parts@[0]@ == texts_view(parts@)[0]);
            if parts@.len() == 2 {
                assert(parts@[1]@ == texts_view(parts@)[1]);
            }
        }
        let ghost ps = split_on(spec_body, POINT);
        if parts[0].len() == 0 || !only_digits(&parts[0]) {
            proof {
                assert(!digit_run(ps[0]));
            }
            return None;
        }
        let digits = if parts.len() == 2 {
            if parts[1].len() == 0 || !only_digits(&parts[1]) {
                proof {
                    assert(!digit_run(ps[1]));
                }
                return None;
            }
            concat_chars(&parts[0], &parts[1])
        } else {
            concat_chars(&parts[0], &Vec::new())
        };
        proof {
            let ps = texts_view(parts@);
            assert(forall|k: int| 0 <= k < ps.len() ==> #[trigger] ps[k] == parts@[k]@);
            if parts@.len() == 1 {
                assert(digits@ =~= ps[0]);
            }
            assert(all_digits(digits@));
        }
        let scale: usize = if parts.len() == 2 {
            parts[1].len()
        } else {
            0
        };
        match digits_to_u64(&digits) {
            Some(m) => Some(Decimal { negative, mantissa: m, scale }),
            None => None,
        }
    }

    /// The number written out, as `decimal_text` gives it.
    pub fn text(&self) -> (r: String)
        requires
            self.scale < usize::MAX,
        ensures
            r@ == decimal_text(*self),
    {
        let mut ds: Vec<char> = Vec::new();
        push_decimal_digits(&mut ds, self.mantissa);
        proof {
            assert(ds@ =~= decimal_digits(self.mantissa as nat));
        }
        let mut p: Vec<char> = Vec::new();
        let mut z: usize = 0;
        let want: usize = self.scale + 1;
        let pad: usize = if want > ds.len() {
            want - ds.len()
        } else {
            0
        };
        while z < pad
            invariant
                z <= pad,
                p@ == zeros(z as int),
            decreases pad - z,
        {
            p.push('0');
            proof {
                assert(zeros(z + 1) =~= zeros(z as int).push('0'));
            }
            z = z + 1;
        }
        let p = concat_chars(&p, &ds);
        proof {
            assert(p@ =~= padded_digits(*self));
        }
        let mut s = String::new();
        if self.negative {
            push_char(&mut s, '-');
        }
        let ghost sign = s@;
        let split_at: usize = p.len() - self.scale;
        let mut k: usize = 0;
        while k < p.len()
            invariant
                k <= p@.len(),
                p@.len() >= self.scale + 1,
                split_at == p@.len() - self.scale,
                self.scale == 0 ==> s@ == sign + p@.subrange(0, k as int),
                self.scale > 0 && k <= split_at ==> s@ == sign + p@.subrange(0, k as int),
                self.scale > 0 && k > split_at ==> s@ == sign + p@.subrange(0, split_at as int)
                    + seq![POINT] + p@.subrange(split_at as int, k as int),
            decreases p@.len() - k,
        {
            let ghost before = s@;
            if self.scale > 0 && k == split_at {
                push_char(&mut s, POINT);
            }
            push_char(&mut s, p[k]);
            proof {
                if self.scale > 0 && k >= split_at {
                    assert(p@.subrange(split_at as int, k + 1) =~= p@.subrange(
                        split_at as int,
                        k as int,
                    ).push(p@[k as int]));
                    assert(p@.subrange(split_at as int, split_at as int) =~= Seq::<
                        char,
                    >::empty());
                } else {
                    assert(sign + p@.subrange(0, k + 1) =~= (sign + p@.subrange(0, k as int)).push(
                        p@[k as int],
                    ));
                }
            }
            k = k + 1;
        }
        proof {
            assert(p@.subrange(0, p@.len() as int) == p@);
            if self.scale > 0 {
                assert(s@ =~= decimal_text(*self));
            } else {
                assert(s@ =~= decimal_text(*self));
            }
        }
        s
    }
}

} // verus!
