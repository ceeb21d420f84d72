//! Comparing numbers written in decimal, of any length, by their digits.
use vstd::prelude::*;
use crate::order::{lex_le, lex_le_exec};
use crate::text::{all_digits, digits_value, is_digit};

verus! {

/// `10` to the power `n`.
pub open spec fn pow10(n: nat) -> nat
    decreases n,
{
    if n == 0 {
        1
    } else {
        pow10((n - 1) as nat) * 10
    }
}

/// `n` zero digits.
pub open spec fn zeros(n: nat) -> Seq<char> {
    Seq::new(n, |i: int| '0')
}

/// The number a digit stands for.
pub open spec fn digit_of(c: char) -> nat {
    ((c as u32) - 48) as nat
}

proof fn lemma_pow10_positive(n: nat)
    ensures
        pow10(n) >= 1,
    decreases n,
{
    if n > 0 {
        lemma_pow10_positive((n - 1) as nat);
    }
}

/// The digits of `s` followed by those of `t`: `s` shifted left by the length of `t`.
pub proof fn lemma_digits_append(s: Seq<char>, t: Seq<char>)
    ensures
        digits_value(s + t) == digits_value(s) * pow10(t.len()) + digits_value(t),
    decreases t.len(),
{
    if t.len() == 0 {
        assert(s + t == s);
        assert(digits_value(t) == 0);
        assert(pow10(t.len()) == 1);
    } else {
        let u = t.drop_last();
        lemma_digits_append(s, u);
        assert((s + t).drop_last() == s + u);
        assert((s + t).last() == t.last());
        let a = digits_value(s);
        let p = pow10(u.len());
        let b = digits_value(u);
        let d = ((t.last() as u32) - 48) as nat;
        assert(digits_value(s + t) == digits_value(s + u) * 10 + d);
        assert(digits_value(t) == b * 10 + d);
        assert(pow10(t.len()) == p * 10);
        assert((a * p + b) * 10 + d == a * (p * 10) + (b * 10 + d)) by (nonlinear_arith);
        assert(digits_value(s + u) == a * p + b);
    }
}

/// Leading zeros do not change the number.
pub proof fn lemma_digits_leading_zeros(k: nat, s: Seq<char>)
    ensures
        digits_value(zeros(k) + s) == digits_value(s),
    decreases k,
{
    lemma_digits_append(zeros(k), s);
    lemma_zeros_value(k);
}

proof fn lemma_zeros_value(k: nat)
    ensures
        digits_value(zeros(k)) == 0,
    decreases k,
{
    if k > 0 {
        lemma_zeros_value((k - 1) as nat);
        assert(zeros(k).drop_last() == zeros((k - 1) as nat));
    }
}

/// A number of `n` digits is below `10^n`.
pub proof fn lemma_digits_bound(s: Seq<char>)
    requires
        all_digits(s),
    ensures
        digits_value(s) < pow10(s.len()),
    decreases s.len(),
{
    if s.len() > 0 {
        let d = s.drop_last();
        assert(all_digits(d)) by {
            assert forall|k: int| 0 <= k < d.len() implies is_digit(#[trigger] d[k]) by {
                assert(d[k] == s[k]);
            }
        }
        lemma_digits_bound(d);
        assert(is_digit(s[s.len() - 1]));
        let x = digits_value(d);
        let p = pow10(d.len());
        let c = ((s.last() as u32) - 48) as nat;
        assert(c <= 9);
        assert(x * 10 + c < p * 10) by (nonlinear_arith)
            requires
                x < p,
                c <= 9,
        ;
    }
}

/// The first digit of `s` counts `10^(n-1)`.
proof fn lemma_digits_front(s: Seq<char>)
    requires
        s.len() > 0,
    ensures
        digits_value(s) == digit_of(s[0]) * pow10((s.len() - 1) as nat) + digits_value(s.drop_first()),
{
    let head = seq![s[0]];
    assert(head + s.drop_first() == s);
    lemma_digits_append(head, s.drop_first());
    assert(head.drop_last().len() == 0);
    assert(digits_value(head.drop_last()) == 0);
    assert(head.last() == s[0]);
    assert(digits_value(head) == digit_of(s[0]));
}

/// For digit texts of one length, the text order is the order of the numbers.
pub proof fn lemma_digits_order(a: Seq<char>, b: Seq<char>)
    requires
        a.len() == b.len(),
        all_digits(a),
        all_digits(b),
    ensures
        lex_le(a, b) <==> digits_value(a) <= digits_value(b),
        a == b <==> digits_value(a) == digits_value(b),
    decreases a.len(),
{
    if a.len() > 0 {
        let (ra, rb) = (a.drop_first(), b.drop_first());
        assert(all_digits(ra)) by {
            assert forall|k: int| 0 <= k < ra.len() implies is_digit(#[trigger] ra[k]) by {
                assert(ra[k] == a[k + 1]);
            }
        }
        assert(all_digits(rb)) by {
            assert forall|k: int| 0 <= k < rb.len() implies is_digit(#[trigger] rb[k]) by {
                assert(rb[k] == b[k + 1]);
            }
        }
        lemma_digits_order(ra, rb);
        lemma_digits_front(a);
        lemma_digits_front(b);
        lemma_digits_bound(ra);
        lemma_digits_bound(rb);
        assert(is_digit(a[0]) && is_digit(b[0]));
        let p = pow10((a.len() - 1) as nat);
        let (da, db) = (digit_of(a[0]), digit_of(b[0]));
        let (xa, xb) = (digits_value(ra), digits_value(rb));
        if da < db {
            assert(da * p + xa < db * p + xb) by (nonlinear_arith)
                requires
                    da < db,
                    xa < p,
            ;
            assert((a[0] as u32) < (b[0] as u32));
        } else if da > db {
            assert(db * p + xb < da * p + xa) by (nonlinear_arith)
                requires
                    db < da,
                    xb < p,
            ;
            assert((a[0] as u32) > (b[0] as u32));
        } else {
            assert(a[0] == b[0]) by {
                assert((a[0] as u32) == (b[0] as u32));
                if a[0] != b[0] {
                    crate::order::lemma_char_code_injective(a[0], b[0]);
                }
            }
            if a == b {
            } else {
                assert(ra != rb) by {
                    if ra == rb {
                        assert(a == seq![a[0]] + ra);
                        assert(b == seq![b[0]] + rb);
                    }
                }
            }
            if ra == rb {
                assert(a == seq![a[0]] + ra);
                assert(b == seq![b[0]] + rb);
            }
        }
    } else {
        assert(a == b);
    }
}

/// The characters `v[from..to]`.
pub fn chars_range(v: &Vec<char>, from: usize, to: usize) -> (r: Vec<char>)
    requires
        from <= to <= v.len(),
    ensures
        r@ == v@.subrange(from as int, to as int),
{
    let mut r: Vec<char> = Vec::new();
    let mut i: usize = from;
    while i < to
        invariant
            from <= i <= to <= v.len(),
            r@ == v@.subrange(from as int, i as int),
        decreases to - i,
    {
        r.push(v[i]);
        i = i + 1;
        assert(r@ =~= v@.subrange(from as int, i as int));
    }
    r
}

/// Whether `v[from..to]` holds only ASCII digits.
pub fn all_digits_in(v: &Vec<char>, from: usize, to: usize) -> (b: bool)
    requires
        from <= to <= v.len(),
    ensures
        b == all_digits(v@.subrange(from as int, to as int)),
{
    let ghost s = v@.subrange(from as int, to as int);
    let mut i: usize = from;
    while i < to
        invariant
            from <= i <= to <= v.len(),
            s == v@.subrange(from as int, to as int),
            forall|k: int| 0 <= k < i - from ==> is_digit(#[trigger] s[k]),
        decreases to - i,
    {
        let u = v[i] as u32;
        assert(s[i - from] == v@[i as int]);
        if !(48 <= u && u <= 57) {
            return false;
        }
        i = i + 1;
    }
    true
}

/// `n` zero digits in front of `v`.
fn pad_zeros(v: &Vec<char>, n: usize) -> (r: Vec<char>)
    ensures
        r@ == zeros(n as nat) + v@,
{
    let mut r: Vec<char> = Vec::new();
    let mut i: usize = 0;
    while i < n
        invariant
            i <= n,
            r@ == zeros(i as nat),
        decreases n - i,
    {
        r.push('0');
        i = i + 1;
        assert(r@ =~= zeros(i as nat));
    }
    let mut j: usize = 0;
    while j < v.len()
        invariant
            i == n,
            j <= v.len(),
            r@ == zeros(n as nat) + v@.take(j as int),
        decreases v.len() - j,
    {
        r.push(v[j]);
        j = j + 1;
        assert(r@ =~= zeros(n as nat) + v@.take(j as int));
    }
    assert(v@.take(v.len() as int) == v@);
    r
}

proof fn lemma_zeros_digits(n: nat, s: Seq<char>)
    requires
        all_digits(s),
    ensures
        all_digits(zeros(n) + s),
{
    let z = zeros(n) + s;
    assert forall|k: int| 0 <= k < z.len() implies is_digit(#[trigger] z[k]) by {
        if k >= n {
            assert(z[k] == s[k - n]);
        }
    }
}

/// Compares the numbers two digit texts write: `(less, equal)`.
pub fn compare_digits(a: &Vec<char>, b: &Vec<char>) -> (r: (bool, bool))
    requires
        all_digits(a@),
        all_digits(b@),
    ensures
        r.0 == (digits_value(a@) < digits_value(b@)),
        r.1 == (digits_value(a@) == digits_value(b@)),
{
    let (pa, pb) = if a.len() < b.len() {
        (pad_zeros(a, b.len() - a.len()), pad_zeros(b, 0))
    } else {
        (pad_zeros(a, 0), pad_zeros(b, a.len() - b.len()))
    };
    proof {
        lemma_digits_leading_zeros((pa@.len() - a@.len()) as nat, a@);
        lemma_digits_leading_zeros((pb@.len() - b@.len()) as nat, b@);
        lemma_zeros_digits((pa@.len() - a@.len()) as nat, a@);
        lemma_zeros_digits((pb@.len() - b@.len()) as nat, b@);
        lemma_digits_order(pa@, pb@);
        lemma_digits_order(pb@, pa@);
    }
    let le = lex_le_exec(&pa, &pb);
    let ge = lex_le_exec(&pb, &pa);
    (le && !ge, le && ge)
}

} // verus!
