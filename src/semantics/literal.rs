//! Reading the values of number literals.
use vstd::prelude::*;

verus! {

pub open spec fn is_digit(c: char) -> bool {
    '0' <= c <= '9'
}

pub open spec fn digit_value(c: char) -> int {
    (c as int) - ('0' as int)
}

/// The value of a sequence of decimal digits.
pub open spec fn decimal_value(s: Seq<char>) -> int
    decreases s.len(),
{
    if s.len() == 0 {
        0
    } else {
        decimal_value(s.drop_last()) * 10 + digit_value(s.last())
    }
}

/// An integer literal: one or more decimal digits whose value fits in `i64`.
pub open spec fn valid_int_literal(s: Seq<char>) -> bool {
    &&& s.len() > 0
    &&& forall|i: int| 0 <= i < s.len() ==> is_digit(#[trigger] s[i])
    &&& decimal_value(s) <= i64::MAX
}

/// The number of decimal points in `s`.
pub open spec fn count_points(s: Seq<char>) -> nat
    decreases s.len(),
{
    if s.len() == 0 {
        0
    } else {
        count_points(s.drop_last()) + if s.last() == '.' {
            1nat
        } else {
            0nat
        }
    }
}

/// A float literal: decimal digits with exactly one decimal point, and at
/// least one digit.
pub open spec fn valid_float_literal(s: Seq<char>) -> bool {
    &&& s.len() >= 2
    &&& forall|i: int| 0 <= i < s.len() ==> is_digit(#[trigger] s[i]) || s[i] == '.'
    &&& count_points(s) == 1
}

proof fn lemma_decimal_prefix_grows(s: Seq<char>, j: int)
    requires
        0 <= j <= s.len(),
        forall|i: int| 0 <= i < s.len() ==> is_digit(#[trigger] s[i]),
    ensures
        decimal_value(s.take(j)) <= decimal_value(s),
        0 <= decimal_value(s.take(j)),
    decreases s.len() - j,
{
    if j < s.len() {
        lemma_decimal_prefix_grows(s, j + 1);
        assert(s.take(j + 1).drop_last() =~= s.take(j));
        assert(is_digit(s[j]));
    } else {
        assert(s.take(j) =~= s);
        lemma_decimal_nonneg(s);
    }
}

proof fn lemma_decimal_nonneg(s: Seq<char>)
    requires
        forall|i: int| 0 <= i < s.len() ==> is_digit(#[trigger] s[i]),
    ensures
        0 <= decimal_value(s),
    decreases s.len(),
{
    if s.len() > 0 {
        assert(is_digit(s[s.len() - 1]));
        lemma_decimal_nonneg(s.drop_last());
    }
}

/// The value of an integer literal, or `None` where it is no valid one.
pub fn parse_int_literal(v: &Vec<char>) -> (r: Option<i64>)
    ensures
        valid_int_literal(v@) ==> (r matches Some(n) && n == decimal_value(v@)),
        r matches Some(n) ==> 0 <= n,
        !valid_int_literal(v@) ==> r is None,
{
    if v.len() == 0 {
        return None;
    }
    let mut i: usize = 0;
    while i < v.len()
        invariant
            i <= v.len(),
            forall|j: int| 0 <= j < i ==> is_digit(#[trigger] v@[j]),
        decreases v.len() - i,
    {
        if !('0' <= v[i] && v[i] <= '9') {
            return None;
        }
        i = i + 1;
    }
    let mut acc: i64 = 0;
    i = 0;
    assert(v@.take(0) =~= Seq::<char>::empty());
    while i < v.len()
        invariant
            i <= v.len(),
            forall|j: int| 0 <= j < v.len() ==> is_digit(#[trigger] v@[j]),
            acc == decimal_value(v@.take(i as int)),
            0 <= acc,
        decreases v.len() - i,
    {
        let d = (v[i] as u32 - '0' as u32) as i64;
        assert(v@.take(i + 1).drop_last() =~= v@.take(i as int));
        assert(is_digit(v@[i as int]));
        if acc > (i64::MAX - d) / 10 {
            proof {
                assert(decimal_value(v@.take(i + 1)) > i64::MAX) by (nonlinear_arith)
                    requires
                        acc > (i64::MAX - d) / 10,
                        decimal_value(v@.take(i + 1)) == acc * 10 + d,
                        0 <= d <= 9,
                ;
                lemma_decimal_prefix_grows(v@, i + 1);
            }
            return None;
        }
        assert(acc * 10 + d <= i64::MAX) by (nonlinear_arith)
            requires
                acc <= (i64::MAX - d) / 10,
                0 <= d <= 9,
        ;
        acc = acc * 10 + d;
        i = i + 1;
    }
    assert(v@.take(v.len() as int) =~= v@);
    Some(acc)
}

/// Whether a float literal is a valid one.
pub fn check_float_literal(v: &Vec<char>) -> (r: bool)
    ensures
        r == valid_float_literal(v@),
{
    let mut points: usize = 0;
    let mut i: usize = 0;
    let mut ok = true;
    assert(v@.take(0) =~= Seq::<char>::empty());
    while i < v.len()
        invariant
            i <= v.len(),
            points == count_points(v@.take(i as int)),
            points <= i,
            ok == forall|j: int| 0 <= j < i ==> is_digit(#[trigger] v@[j]) || v@[j] == '.',
        decreases v.len() - i,
    {
        let c = v[i];
        assert(v@.take(i + 1).drop_last() =~= v@.take(i as int));
        if c == '.' {
            points = points + 1;
        } else if !('0' <= c && c <= '9') {
            ok = false;
        }
        i = i + 1;
    }
    assert(v@.take(v.len() as int) =~= v@);
    ok && points == 1 && v.len() >= 2
}

} // verus!
