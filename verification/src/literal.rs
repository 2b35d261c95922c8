//! Number literals: which words read as a whole number and which as a decimal
//! number, by the grammars `str::parse` documents for `i32` and `f32`.
use vstd::prelude::*;

verus! {

pub open spec fn is_digit(c: char) -> bool {
    '0' <= c && c <= '9'
}

pub open spec fn all_digits(d: Seq<char>) -> bool {
    forall|i: int| 0 <= i < d.len() ==> is_digit(#[trigger] d[i])
}

/// The value of a run of decimal digits, most significant first.
pub open spec fn digits_value(d: Seq<char>) -> int
    decreases d.len(),
{
    if d.len() == 0 {
        0
    } else {
        digits_value(d.drop_last()) * 10 + (d.last() as int - 48)
    }
}

pub open spec fn is_sign(c: char) -> bool {
    c == '+' || c == '-'
}

/// The integer `w` spells as `str::parse::<i32>` reads it, before the range
/// check: an optional `+` or `-`, then one or more decimal digits and nothing
/// else.
pub open spec fn int_literal(w: Seq<char>) -> Option<int> {
    if w.len() > 0 && is_sign(w[0]) {
        let d = w.drop_first();
        if d.len() > 0 && all_digits(d) {
            Some(
                if w[0] == '-' {
                    -digits_value(d)
                } else {
                    digits_value(d)
                },
            )
        } else {
            None
        }
    } else if w.len() > 0 && all_digits(w) {
        Some(digits_value(w))
    } else {
        None
    }
}

/// What `str::parse::<i32>` makes of `w`: the literal's value when it is in
/// range, and `None` when `w` is not a literal or its value does not fit.
pub open spec fn parse_i32(w: Seq<char>) -> Option<i32> {
    match int_literal(w) {
        Some(v) => if i32::MIN <= v && v <= i32::MAX {
            Some(v as i32)
        } else {
            None
        },
        None => None,
    }
}

proof fn lemma_digits_nonneg(d: Seq<char>)
    requires
        all_digits(d),
    ensures
        digits_value(d) >= 0,
    decreases d.len(),
{
    if d.len() > 0 {
        assert(all_digits(d.drop_last())) by {
            assert forall|i: int| 0 <= i < d.drop_last().len() implies is_digit(
                #[trigger] d.drop_last()[i],
            ) by {
                assert(d.drop_last()[i] == d[i]);
            }
        }
        lemma_digits_nonneg(d.drop_last());
        assert(is_digit(d[d.len() - 1]));
    }
}

/// A longer run of digits is worth at least as much as its prefix.
proof fn lemma_digits_grow(d: Seq<char>, k: int)
    requires
        all_digits(d),
        0 <= k <= d.len(),
    ensures
        digits_value(d) >= digits_value(d.take(k)),
    decreases d.len(),
{
    if k < d.len() {
        assert(all_digits(d.drop_last())) by {
            assert forall|i: int| 0 <= i < d.drop_last().len() implies is_digit(
                #[trigger] d.drop_last()[i],
            ) by {
                assert(d.drop_last()[i] == d[i]);
            }
        }
        lemma_digits_grow(d.drop_last(), k);
        assert(d.drop_last().take(k) =~= d.take(k));
        lemma_digits_nonneg(d.drop_last());
        assert(is_digit(d[d.len() - 1]));
    } else {
        assert(d.take(k) =~= d);
    }
}

/// `str::parse::<i32>`, on a word given as characters.
#[verifier::spinoff_prover]
#[verifier::rlimit(40)]
pub fn parse_int(w: &Vec<char>) -> (r: Option<i32>)
    ensures
        r == parse_i32(w@),
{
    let n = w.len();
    if n == 0 {
        return None;
    }
    let signed = w[0] == '+' || w[0] == '-';
    let negative = w[0] == '-';
    let start: usize = if signed {
        1
    } else {
        0
    };
    if start == n {
        return None;
    }
    let ghost d = w@.skip(start as int);
    proof {
        if signed {
            assert(d =~= w@.drop_first());
            assert(is_sign(w@[0]));
        } else {
            assert(d =~= w@);
            assert(!is_sign(w@[0]));
        }
    }
    let mut v: i64 = 0;
    let mut i = start;
    while i < n
        invariant
            start <= i <= n,
            n == w@.len(),
            d == w@.skip(start as int),
            n > 0,
            start < n,
            signed ==> d == w@.drop_first() && is_sign(w@[0]),
            !signed ==> d == w@ && !is_sign(w@[0]),
            negative == (w@[0] == '-'),
            all_digits(d.take(i - start)),
            v == digits_value(d.take(i - start)),
            0 <= v <= 2147483648,
        decreases n - i,
    {
        let c = w[i];
        if !('0' <= c && c <= '9') {
            assert(!all_digits(d)) by {
                assert(d[i - start] == c);
            }
            assert(int_literal(w@) is None);
            return None;
        }
        assert(d.take(i + 1 - start).drop_last() =~= d.take(i - start));
        v = v * 10 + (c as u32 - 48) as i64;
        assert(all_digits(d.take(i + 1 - start))) by {
            assert forall|j: int| 0 <= j < d.take(i + 1 - start).len() implies is_digit(
                #[trigger] d.take(i + 1 - start)[j],
            ) by {
                if j < i - start {
                    assert(d.take(i + 1 - start)[j] == d.take(i - start)[j]);
                }
            }
        }
        if v > 2147483648 {
            proof {
                if all_digits(d) {
                    lemma_digits_grow(d, i + 1 - start);
                    assert(digits_value(d) > 2147483648);
                    assert(int_literal(w@) matches Some(x) && (x > i32::MAX || x < i32::MIN));
                } else {
                    assert(int_literal(w@) is None);
                }
            }
            return None;
        }
        i += 1;
    }
    assert(d.take(n - start) =~= d);
    if negative {
        Some((0 - v) as i32)
    } else if v > 2147483647 {
        None
    } else {
        Some(v as i32)
    }
}

/// What `str::parse::<i64>` makes of `w`.
pub open spec fn parse_i64(w: Seq<char>) -> Option<i64> {
    match int_literal(w) {
        Some(v) => if i64::MIN <= v && v <= i64::MAX {
            Some(v as i64)
        } else {
            None
        },
        None => None,
    }
}

/// `str::parse::<i64>`, on a word given as characters.
#[verifier::spinoff_prover]
#[verifier::rlimit(40)]
pub fn parse_long(w: &Vec<char>) -> (r: Option<i64>)
    ensures
        r == parse_i64(w@),
{
    let n = w.len();
    if n == 0 {
        return None;
    }
    let signed = w[0] == '+' || w[0] == '-';
    let negative = w[0] == '-';
    let start: usize = if signed {
        1
    } else {
        0
    };
    if start == n {
        return None;
    }
    let ghost d = w@.skip(start as int);
    proof {
        if signed {
            assert(d =~= w@.drop_first());
            assert(is_sign(w@[0]));
        } else {
            assert(d =~= w@);
            assert(!is_sign(w@[0]));
        }
    }
    let mut v: i128 = 0;
    let mut i = start;
    while i < n
        invariant
            start <= i <= n,
            n == w@.len(),
            d == w@.skip(start as int),
            n > 0,
            start < n,
            signed ==> d == w@.drop_first() && is_sign(w@[0]),
            !signed ==> d == w@ && !is_sign(w@[0]),
            negative == (w@[0] == '-'),
            all_digits(d.take(i - start)),
            v == digits_value(d.take(i - start)),
            0 <= v <= 9223372036854775808,
        decreases n - i,
    {
        let c = w[i];
        if !('0' <= c && c <= '9') {
            assert(!all_digits(d)) by {
                assert(d[i - start] == c);
            }
            assert(int_literal(w@) is None);
            return None;
        }
        assert(d.take(i + 1 - start).drop_last() =~= d.take(i - start));
        v = v * 10 + (c as u32 - 48) as i128;
        assert(all_digits(d.take(i + 1 - start))) by {
            assert forall|j: int| 0 <= j < d.take(i + 1 - start).len() implies is_digit(
                #[trigger] d.take(i + 1 - start)[j],
            ) by {
                if j < i - start {
                    assert(d.take(i + 1 - start)[j] == d.take(i - start)[j]);
                }
            }
        }
        if v > 9223372036854775808 {
            proof {
                if all_digits(d) {
                    lemma_digits_grow(d, i + 1 - start);
                    assert(digits_value(d) > 9223372036854775808);
                    assert(int_literal(w@) matches Some(x) && (x > i64::MAX || x < i64::MIN));
                } else {
                    assert(int_literal(w@) is None);
                }
            }
            return None;
        }
        i += 1;
    }
    assert(d.take(n - start) =~= d);
    if negative {
        Some((0 - v) as i64)
    } else if v > 9223372036854775807 {
        None
    } else {
        Some(v as i64)
    }
}

/// ASCII letters folded to lower case; everything else unchanged.
pub open spec fn lower(c: char) -> char {
    if 'A' <= c && c <= 'Z' {
        ((c as int) + 32) as char
    } else {
        c
    }
}

pub fn to_lower(c: char) -> (r: char)
    ensures
        r == lower(c),
{
    if 'A' <= c && c <= 'Z' {
        ((c as u32) + 32) as u8 as char
    } else {
        c
    }
}

/// `w` without a leading sign.
pub open spec fn unsigned_part(w: Seq<char>) -> Seq<char> {
    if w.len() > 0 && is_sign(w[0]) {
        w.drop_first()
    } else {
        w
    }
}

/// The part of a decimal literal before its exponent: digits with at most one
/// point among them, and at least one digit.
pub open spec fn is_mantissa(m: Seq<char>) -> bool {
    ||| (m.len() >= 1 && all_digits(m))
    ||| exists|j: int|
        0 <= j < m.len() && m[j] == '.' && m.len() >= 2 && all_digits(#[trigger] m.take(j))
            && all_digits(m.skip(j + 1))
}

/// An exponent, or nothing: `e`, an optional sign, and one or more digits.
pub open spec fn is_exponent(x: Seq<char>) -> bool {
    x.len() == 0 || (x[0] == 'e' && unsigned_part(x.drop_first()).len() >= 1 && all_digits(
        unsigned_part(x.drop_first()),
    ))
}

/// `Number ::= ( Digit+ | Digit+ '.' Digit* | Digit* '.' Digit+ ) Exp?`,
/// on text already folded to lower case.
pub open spec fn is_number(b: Seq<char>) -> bool {
    exists|k: int| 0 <= k <= b.len() && is_mantissa(#[trigger] b.take(k)) && is_exponent(b.skip(k))
}

/// The grammar `f32`'s `FromStr` documents, and which it accepts exactly:
/// `Sign? ( 'inf' | 'infinity' | 'nan' | Number )`, letters in either case.
pub open spec fn is_float_literal(w: Seq<char>) -> bool {
    let b = unsigned_part(w).map_values(|c: char| lower(c));
    ||| b == seq!['i', 'n', 'f']
    ||| b == seq!['i', 'n', 'f', 'i', 'n', 'i', 't', 'y']
    ||| b == seq!['n', 'a', 'n']
    ||| is_number(b)
}

fn digits_in(b: &Vec<char>, from: usize, to: usize) -> (r: bool)
    requires
        from <= to <= b@.len(),
    ensures
        r == all_digits(b@.subrange(from as int, to as int)),
{
    let mut i = from;
    while i < to
        invariant
            from <= i <= to,
            to <= b@.len(),
            all_digits(b@.subrange(from as int, i as int)),
        decreases to - i,
    {
        if !('0' <= b[i] && b[i] <= '9') {
            assert(b@.subrange(from as int, to as int)[i - from] == b@[i as int]);
            return false;
        }
        assert forall|j: int| 0 <= j < b@.subrange(from as int, i + 1).len() implies is_digit(
            #[trigger] b@.subrange(from as int, i + 1)[j],
        ) by {
            if j < i - from {
                assert(b@.subrange(from as int, i + 1)[j] == b@.subrange(from as int, i as int)[j]);
            }
        }
        i += 1;
    }
    true
}

fn mantissa_in(b: &Vec<char>, k: usize) -> (r: bool)
    requires
        k <= b@.len(),
    ensures
        r == is_mantissa(b@.take(k as int)),
{
    let ghost m = b@.take(k as int);
    let mut j: usize = 0;
    while j < k && b[j] != '.'
        invariant
            j <= k,
            k <= b@.len(),
            m == b@.take(k as int),
            forall|t: int| 0 <= t < j ==> m[t] != '.',
        decreases k - j,
    {
        j += 1;
    }
    if j == k {
        let r = k >= 1 && digits_in(b, 0, k);
        assert(b@.subrange(0, k as int) =~= m);
        proof {
            if !r {
                assert forall|t: int|
                    0 <= t < m.len() && m[t] == '.' && m.len() >= 2 implies !all_digits(
                    #[trigger] m.take(t),
                ) || !all_digits(m.skip(t + 1)) by {}
            }
        }
        return r;
    }
    let before = digits_in(b, 0, j);
    let after = digits_in(b, j + 1, k);
    assert(b@.subrange(0, j as int) =~= m.take(j as int));
    assert(b@.subrange(j + 1, k as int) =~= m.skip(j + 1));
    let r = k >= 2 && before && after;
    proof {
        assert(!all_digits(m)) by {
            assert(m[j as int] == '.');
        }
        if !r {
            assert forall|t: int|
                0 <= t < m.len() && m[t] == '.' && m.len() >= 2 implies !all_digits(
                #[trigger] m.take(t),
            ) || !all_digits(m.skip(t + 1)) by {
                if t < j {
                } else if t > j {
                    assert(m.take(t)[j as int] == '.');
                } else {
                }
            }
        }
    }
    r
}

/// Whether lower-cased, unsigned text is a `Number` of the grammar.
fn number_text(b: &Vec<char>) -> (r: bool)
    ensures
        r == is_number(b@),
{
    let n = b.len();
    // The first `e` ends the mantissa.
    let mut k: usize = 0;
    while k < n && b[k] != 'e'
        invariant
            k <= n,
            n == b@.len(),
            forall|t: int| 0 <= t < k ==> b@[t] != 'e',
        decreases n - k,
    {
        k += 1;
    }
    let m_ok = mantissa_in(b, k);
    let e_ok = exponent_at(b, k);
    let r = m_ok && e_ok;
    proof {
        if r {
            assert(is_mantissa(b@.take(k as int)) && is_exponent(b@.skip(k as int)));
        } else {
            assert forall|t: int|
                0 <= t <= b@.len() && is_mantissa(#[trigger] b@.take(t)) implies !is_exponent(
                b@.skip(t),
            ) by {
                if t < k {
                    assert(b@.skip(t)[0] == b@[t]);
                } else if t > k {
                    assert(b@.take(t)[k as int] == 'e');
                    let mt = b@.take(t);
                    if mt.len() >= 1 && all_digits(mt) {
                        assert(is_digit(mt[k as int]));
                    } else {
                        let j = choose|j: int|
                            0 <= j < mt.len() && mt[j] == '.' && mt.len() >= 2 && all_digits(
                                #[trigger] mt.take(j),
                            ) && all_digits(mt.skip(j + 1));
                        if k < j {
                            assert(mt.take(j)[k as int] == 'e');
                        } else {
                            assert(mt.skip(j + 1)[k - j - 1] == 'e');
                        }
                    }
                }
            }
        }
    }
    r
}

/// Whether `b[k..]` is an exponent or empty, given that `b[k]`, if any, is
/// `e`.
fn exponent_at(b: &Vec<char>, k: usize) -> (r: bool)
    requires
        k <= b@.len(),
        k < b@.len() ==> b@[k as int] == 'e',
    ensures
        r == is_exponent(b@.skip(k as int)),
{
    let n = b.len();
    if k == n {
        assert(b@.skip(k as int).len() == 0);
        return true;
    }
    let e_start: usize = if k + 1 < n && (b[k + 1] == '+' || b[k + 1] == '-') {
        k + 2
    } else {
        k + 1
    };
    let r = e_start < n && digits_in(b, e_start, n);
    proof {
        let x = b@.skip(k as int);
        assert(x[0] == 'e');
        assert(unsigned_part(x.drop_first()) =~= b@.subrange(e_start as int, n as int));
    }
    r
}

/// `w` without its sign, folded to lower case.
fn folded(w: &Vec<char>) -> (b: Vec<char>)
    ensures
        b@ == unsigned_part(w@).map_values(|c: char| lower(c)),
{
    let start: usize = if w.len() > 0 && (w[0] == '+' || w[0] == '-') {
        1
    } else {
        0
    };
    let mut b: Vec<char> = Vec::new();
    let mut i = start;
    while i < w.len()
        invariant
            start <= i <= w@.len(),
            b@ == w@.subrange(start as int, i as int).map_values(|c: char| lower(c)),
        decreases w@.len() - i,
    {
        let c = to_lower(w[i]);
        b.push(c);
        assert(b@ =~= w@.subrange(start as int, i + 1).map_values(|c: char| lower(c)));
        i += 1;
    }
    assert(w@.subrange(start as int, w@.len() as int) =~= unsigned_part(w@));
    b
}

/// Whether `w` reads as an `f32`, by the grammar [`is_float_literal`].
pub fn is_float(w: &Vec<char>) -> (r: bool)
    ensures
        r == is_float_literal(w@),
{
    let b = folded(w);
    let n = b.len();
    if n == 3 && b[0] == 'i' && b[1] == 'n' && b[2] == 'f' {
        assert(b@ =~= seq!['i', 'n', 'f']);
        return true;
    }
    if n == 8 && b[0] == 'i' && b[1] == 'n' && b[2] == 'f' && b[3] == 'i' && b[4] == 'n' && b[5]
        == 'i' && b[6] == 't' && b[7] == 'y' {
        assert(b@ =~= seq!['i', 'n', 'f', 'i', 'n', 'i', 't', 'y']);
        return true;
    }
    if n == 3 && b[0] == 'n' && b[1] == 'a' && b[2] == 'n' {
        assert(b@ =~= seq!['n', 'a', 'n']);
        return true;
    }
    assert(b@ != seq!['i', 'n', 'f']);
    assert(b@ != seq!['i', 'n', 'f', 'i', 'n', 'i', 't', 'y']);
    assert(b@ != seq!['n', 'a', 'n']);
    number_text(&b)
}

} // verus!
