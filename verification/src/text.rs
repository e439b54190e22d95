//! Text utilities over `Vec<char>`, the library's text representation.
//!
//! Callers convert OS strings to and from `Vec<char>` at the boundary;
//! everything here is verified against exact sequence-level contracts:
//! equality, concatenation, decimal and octal rendering, and the two
//! small parsers the key commands need (a base-8 permission word and a
//! seconds-with-fraction timeout).

use vstd::prelude::*;

verus! {

/// A character vector's deep view is its view.
pub proof fn lemma_deep_view_chars(v: Vec<char>)
    ensures
        v.deep_view() =~= v@,
{
    assert forall|j: int| 0 <= j < v@.len() implies v.deep_view()[j] == v@[j] by {}
}

/// Compares two character vectors for equality of their contents.
pub fn chars_eq(a: &Vec<char>, b: &Vec<char>) -> (r: bool)
    ensures
        r == (a@ == b@),
{
    if a.len() != b.len() {
        assert(a@ != b@);
        return false;
    }
    let n = a.len();
    let mut i: usize = 0;
    while i < n
        invariant
            n == a@.len() == b@.len(),
            i <= n,
            forall|j: int| 0 <= j < i ==> a@[j] == b@[j],
        decreases n - i,
    {
        if a[i] != b[i] {
            return false;
        }
        i += 1;
    }
    assert(a@ =~= b@);
    true
}

/// Whether a list of character vectors holds one equal to `x`.
pub fn chars_list_contains(list: &Vec<Vec<char>>, x: &Vec<char>) -> (r: bool)
    ensures
        r == list.deep_view().contains(x@),
{
    let n = list.len();
    let mut i: usize = 0;
    while i < n
        invariant
            n == list@.len(),
            i <= n,
            forall|j: int| 0 <= j < i ==> list.deep_view()[j] != x@,
        decreases n - i,
    {
        assert(list.deep_view()[i as int] == list@[i as int]@);
        if chars_eq(&list[i], x) {
            assert(list.deep_view().contains(x@));
            return true;
        }
        i += 1;
    }
    assert forall|j: int| 0 <= j < list.deep_view().len() implies list.deep_view()[j] != x@ by {}
    false
}

/// Appends the contents of `src` to `dst`.
pub fn push_chars(dst: &mut Vec<char>, src: &Vec<char>)
    ensures
        final(dst)@ == old(dst)@ + src@,
{
    let n = src.len();
    let mut i: usize = 0;
    while i < n
        invariant
            n == src@.len(),
            i <= n,
            dst@ == old(dst)@ + src@.take(i as int),
        decreases n - i,
    {
        dst.push(src[i]);
        assert(old(dst)@ + src@.take(i as int) + seq![src@[i as int]] =~= old(dst)@ + src@.take(
            i + 1,
        ));
        i += 1;
    }
    assert(dst@ =~= old(dst)@ + src@);
}

/// Appends the characters of a string slice to `dst`.
pub fn push_str_chars(dst: &mut Vec<char>, src: &str)
    ensures
        final(dst)@ == old(dst)@ + src@,
{
    let n = src.unicode_len();
    let mut i: usize = 0;
    while i < n
        invariant
            n == src@.len(),
            i <= n,
            dst@ == old(dst)@ + src@.take(i as int),
        decreases n - i,
    {
        dst.push(src.get_char(i));
        assert(old(dst)@ + src@.take(i as int) + seq![src@[i as int]] =~= old(dst)@ + src@.take(
            i + 1,
        ));
        i += 1;
    }
    assert(dst@ =~= old(dst)@ + src@);
}

/// Appends `count` copies of `c` to `dst`.
pub fn push_repeat(dst: &mut Vec<char>, c: char, count: usize)
    ensures
        final(dst)@ == old(dst)@ + Seq::new(count as nat, |i: int| c),
{
    let mut i: usize = 0;
    while i < count
        invariant
            i <= count,
            dst@ == old(dst)@ + Seq::new(i as nat, |j: int| c),
        decreases count - i,
    {
        dst.push(c);
        assert(old(dst)@ + Seq::new(i as nat, |j: int| c) + seq![c] =~= old(dst)@ + Seq::new(
            (i + 1) as nat,
            |j: int| c,
        ));
        i += 1;
    }
}

/// The character for one decimal or octal digit.
pub open spec fn digit_char(d: nat) -> char {
    ((48 + d) as u8) as char
}

/// Decimal rendering of a natural number, most significant digit first.
pub open spec fn spec_dec(n: nat) -> Seq<char>
    decreases n,
{
    if n < 10 {
        seq![digit_char(n)]
    } else {
        spec_dec(n / 10).push(digit_char(n % 10))
    }
}

/// Renders `n` in decimal.
pub fn dec_of(n: u64) -> (r: Vec<char>)
    ensures
        r@ == spec_dec(n as nat),
    decreases n,
{
    if n < 10 {
        let mut v: Vec<char> = Vec::new();
        v.push((48 + n as u8) as char);
        v
    } else {
        let mut v = dec_of(n / 10);
        v.push((48 + (n % 10) as u8) as char);
        v
    }
}

/// Renders a count in decimal.
pub fn dec_of_usize(n: usize) -> (r: Vec<char>)
    ensures
        r@ == spec_dec(n as nat),
    decreases n,
{
    if n < 10 {
        let mut v: Vec<char> = Vec::new();
        v.push((48 + n as u8) as char);
        v
    } else {
        let mut v = dec_of_usize(n / 10);
        v.push((48 + (n % 10) as u8) as char);
        v
    }
}

/// Three-digit zero-padded octal rendering of a permission word.
pub open spec fn spec_oct3(m: nat) -> Seq<char>
    recommends
        m < 512,
{
    seq![digit_char(m / 64), digit_char((m / 8) % 8), digit_char(m % 8)]
}

/// Renders the low nine bits of a permission word as a zero-padded
/// base-8 triplet.
pub fn oct3_of(m: u32) -> (r: Vec<char>)
    requires
        m < 512,
    ensures
        r@ == spec_oct3(m as nat),
{
    let mut v: Vec<char> = Vec::new();
    v.push((48 + (m / 64) as u8) as char);
    v.push((48 + ((m / 8) % 8) as u8) as char);
    v.push((48 + (m % 8) as u8) as char);
    assert(v@ =~= spec_oct3(m as nat));
    v
}

pub open spec fn is_dec_digit(c: char) -> bool {
    '0' <= c && c <= '9'
}

pub open spec fn is_oct_digit(c: char) -> bool {
    '0' <= c && c <= '7'
}

pub open spec fn dec_digit_val(c: char) -> nat {
    (c as nat - 48) as nat
}

/// Value of a sequence of base-`b` digits, most significant first.
pub open spec fn digits_val(s: Seq<char>, b: nat) -> nat
    decreases s.len(),
{
    if s.len() == 0 {
        0
    } else {
        digits_val(s.drop_last(), b) * b + dec_digit_val(s.last())
    }
}

pub open spec fn all_oct_digits(s: Seq<char>) -> bool {
    forall|i: int| 0 <= i < s.len() ==> is_oct_digit(#[trigger] s[i])
}

pub open spec fn all_dec_digits(s: Seq<char>) -> bool {
    forall|i: int| 0 <= i < s.len() ==> is_dec_digit(#[trigger] s[i])
}

/// The digits of a base-8 permission word: everything after an
/// optional leading `+`.
pub open spec fn octal_digits_of(s: Seq<char>) -> Seq<char> {
    if s.len() > 0 && s[0] == '+' {
        s.skip(1)
    } else {
        s
    }
}

/// What parsing the search text as a base-8 permission word yields:
/// an optional leading `+`, then at least one octal digit, with the
/// value fitting in 32 bits; anything else is rejected.
pub open spec fn spec_parse_octal(s: Seq<char>) -> Option<u32> {
    let digits = octal_digits_of(s);
    if digits.len() > 0 && all_oct_digits(digits) && digits_val(digits, 8) <= u32::MAX {
        Some(digits_val(digits, 8) as u32)
    } else {
        None
    }
}

proof fn lemma_digits_val_prefix_grows(s: Seq<char>, b: nat, i: int)
    requires
        0 <= i < s.len(),
        b >= 1,
    ensures
        digits_val(s.take(i + 1), b) >= digits_val(s.take(i), b),
    decreases s.len(),
{
    assert(s.take(i + 1).drop_last() =~= s.take(i));
    assert(digits_val(s.take(i + 1), b) == digits_val(s.take(i), b) * b + dec_digit_val(
        s.take(i + 1).last(),
    ));
    assert(digits_val(s.take(i), b) * b >= digits_val(s.take(i), b)) by (nonlinear_arith)
        requires
            b >= 1,
    ;
}

proof fn lemma_digits_val_from_prefix(s: Seq<char>, b: nat, i: int, bound: nat)
    requires
        0 <= i <= s.len(),
        b >= 1,
        digits_val(s.take(i), b) > bound,
    ensures
        digits_val(s, b) > bound,
    decreases s.len() - i,
{
    if i == s.len() {
        assert(s.take(i) =~= s);
    } else {
        lemma_digits_val_prefix_grows(s, b, i);
        lemma_digits_val_from_prefix(s, b, i + 1, bound);
    }
}

/// Parses the search text as a base-8 number, as the permission-change
/// command reads it.
pub fn parse_octal(s: &Vec<char>) -> (r: Option<u32>)
    ensures
        r == spec_parse_octal(s@),
{
    let start: usize = if s.len() > 0 && s[0] == '+' {
        1
    } else {
        0
    };
    let ghost digits = octal_digits_of(s@);
    assert(digits =~= s@.skip(start as int));
    if s.len() == start {
        return None;
    }
    let mut val: u32 = 0;
    let mut i: usize = start;
    while i < s.len()
        invariant
            start <= i <= s@.len(),
            digits == octal_digits_of(s@),
            digits =~= s@.skip(start as int),
            all_oct_digits(digits.take(i - start)),
            val == digits_val(digits.take(i - start), 8),
        decreases s@.len() - i,
    {
        let c = s[i];
        if !('0' <= c && c <= '7') {
            assert(digits[i - start] == c);
            assert(!is_oct_digit(digits[i - start]));
            return None;
        }
        let d = (c as u32) - 48;
        proof {
            let k = i - start;
            assert(digits.take(k + 1).drop_last() =~= digits.take(k));
            assert(digits.take(k + 1).last() == digits[k] == c);
            assert(digits_val(digits.take(k + 1), 8) == digits_val(digits.take(k), 8) * 8
                + dec_digit_val(c));
            assert(dec_digit_val(c) == d);
        }
        if val > (u32::MAX - d) / 8 {
            proof {
                assert(val * 8 + d > u32::MAX) by (nonlinear_arith)
                    requires
                        val > (u32::MAX - d) / 8,
                        d < 8,
                ;
                lemma_digits_val_from_prefix(digits, 8, i - start + 1, u32::MAX as nat);
            }
            return None;
        }
        proof {
            assert(val * 8 + d <= u32::MAX) by (nonlinear_arith)
                requires
                    val <= (u32::MAX - d) / 8,
                    d < 8,
            ;
            assert forall|j: int| 0 <= j < i - start + 1 implies is_oct_digit(
                #[trigger] digits.take(i - start + 1)[j],
            ) by {
                if j < i - start {
                    assert(digits.take(i - start)[j] == digits.take(i - start + 1)[j]);
                }
            }
        }
        val = val * 8 + d;
        i += 1;
    }
    assert(digits.take(i - start) =~= digits);
    Some(val)
}

/// What parsing the timeout text yields, in milliseconds: decimal
/// digits with an optional single point and fraction (at least one
/// digit in all), the fraction read to millisecond precision; values
/// past 64 bits and any other shape are rejected.
pub open spec fn spec_parse_millis(s: Seq<char>) -> Option<u64> {
    if has_single_point_shape(s) {
        let w = whole_part(s);
        let f = frac_part(s);
        let ms = digits_val(w, 10) * 1000 + frac_millis(f);
        if ms <= u64::MAX {
            Some(ms as u64)
        } else {
            None
        }
    } else {
        None
    }
}

/// Whether `s` is digits, at most one point, and at least one digit.
pub open spec fn has_single_point_shape(s: Seq<char>) -> bool {
    exists|p: int|
        #![trigger point_splits(s, p)]
        point_splits(s, p)
}

pub open spec fn point_splits(s: Seq<char>, p: int) -> bool {
    &&& 0 <= p <= s.len()
    &&& (p < s.len() ==> s[p] == '.')
    &&& all_dec_digits(s.take(p))
    &&& (p < s.len() ==> all_dec_digits(s.skip(p + 1)))
    &&& s.len() > if p < s.len() {
        1int
    } else {
        0int
    }
}

pub open spec fn whole_part(s: Seq<char>) -> Seq<char> {
    s.take(point_index(s))
}

pub open spec fn frac_part(s: Seq<char>) -> Seq<char> {
    if point_index(s) < s.len() {
        s.skip(point_index(s) + 1)
    } else {
        Seq::empty()
    }
}

/// Index of the point, or the length when there is none.
pub open spec fn point_index(s: Seq<char>) -> int {
    choose|p: int| #[trigger] point_splits(s, p)
}

/// The first three fraction digits, short fractions padded with zeros.
pub open spec fn frac3(f: Seq<char>) -> Seq<char> {
    if f.len() >= 3 {
        f.take(3)
    } else {
        f.add(Seq::new((3 - f.len()) as nat, |i: int| '0'))
    }
}

/// The fraction read to millisecond precision.
pub open spec fn frac_millis(f: Seq<char>) -> nat {
    digits_val(frac3(f), 10)
}

proof fn lemma_point_unique(s: Seq<char>, p1: int, p2: int)
    requires
        point_splits(s, p1),
        point_splits(s, p2),
    ensures
        p1 == p2,
{
    if p1 < p2 {
        assert(is_dec_digit(s.take(p2)[p1]));
    }
    if p2 < p1 {
        assert(is_dec_digit(s.take(p1)[p2]));
    }
}

/// Parses the timeout text as seconds with an optional fraction,
/// returning milliseconds.
pub fn parse_millis(s: &Vec<char>) -> (r: Option<u64>)
    ensures
        r == spec_parse_millis(s@),
{
    let n = s.len();
    // find the point, checking that everything before it is a digit
    let mut p: usize = 0;
    while p < n && s[p] != '.'
        invariant
            p <= n == s@.len(),
            forall|j: int| 0 <= j < p ==> s@[j] != '.',
        decreases n - p,
    {
        p += 1;
    }
    let mut i: usize = 0;
    let mut whole: u64 = 0;
    let mut overflow = false;
    while i < p
        invariant
            i <= p <= n == s@.len(),
            forall|j: int| 0 <= j < p ==> s@[j] != '.',
            p < n ==> s@[p as int] == '.',
            !overflow ==> whole == digits_val(s@.take(i as int), 10),
            !overflow ==> digits_val(s@.take(i as int), 10) <= u64::MAX,
            overflow ==> digits_val(s@.take(p as int), 10) > u64::MAX,
            all_dec_digits(s@.take(i as int)),
        decreases p - i,
    {
        let c = s[i];
        if !('0' <= c && c <= '9') {
            assert(!is_dec_digit(s@.take(p as int)[i as int]));
            assert forall|q: int| !point_splits(s@, q) by {
                if point_splits(s@, q) {
                    if q > i {
                        assert(is_dec_digit(s@.take(q)[i as int]));
                    } else {
                        assert(s@[q] == '.');
                    }
                }
            }
            return None;
        }
        proof {
            assert(s@.take(i + 1).drop_last() =~= s@.take(i as int));
            assert(s@.take(i + 1).last() == s@[i as int] == c);
            assert(digits_val(s@.take(i + 1), 10) == digits_val(s@.take(i as int), 10) * 10
                + dec_digit_val(c));
            assert forall|j: int| 0 <= j < i + 1 implies is_dec_digit(
                #[trigger] s@.take(i + 1)[j],
            ) by {
                if j < i {
                    assert(s@.take(i as int)[j] == s@.take(i + 1)[j]);
                }
            }
        }
        if !overflow {
            let d = (c as u64) - 48;
            assert(dec_digit_val(c) == d);
            if whole > (u64::MAX - d) / 10 {
                proof {
                    assert(whole * 10 + d > u64::MAX) by (nonlinear_arith)
                        requires
                            whole > (u64::MAX - d) / 10,
                            d < 10,
                    ;
                    assert(digits_val(s@.take(i + 1), 10) > u64::MAX);
                    assert(s@.take(p as int).take(i + 1) =~= s@.take(i + 1));
                    lemma_digits_val_from_prefix(s@.take(p as int), 10, i + 1, u64::MAX as nat);
                }
                overflow = true;
            } else {
                proof {
                    assert(whole * 10 + d <= u64::MAX) by (nonlinear_arith)
                        requires
                            whole <= (u64::MAX - d) / 10,
                            d < 10,
                    ;
                }
                whole = whole * 10 + d;
            }
        }
        i += 1;
    }
    // read up to three fraction digits, checking the rest are digits
    let mut f0: u64 = 0;
    let mut f1: u64 = 0;
    let mut f2: u64 = 0;
    if p < n {
        if n == 1 {
            // a lone point has no digit at all
            assert forall|q: int| !point_splits(s@, q) by {
                if point_splits(s@, q) {
                    if q == 0 {
                    } else {
                        assert(is_dec_digit(s@.take(q)[0]));
                    }
                }
            }
            return None;
        }
        let mut j: usize = p + 1;
        while j < n
            invariant
                p < n == s@.len(),
                n > 1,
                p + 1 <= j <= n,
                forall|k: int| 0 <= k < p ==> s@[k] != '.',
                s@[p as int] == '.',
                all_dec_digits(s@.take(p as int)),
                all_dec_digits(s@.subrange(p + 1, j as int)),
            decreases n - j,
        {
            let c = s[j];
            if !('0' <= c && c <= '9') {
                assert forall|q: int| !point_splits(s@, q) by {
                    if point_splits(s@, q) {
                        if q == p {
                            assert(is_dec_digit(s@.skip(q + 1)[j - p - 1]));
                        } else if q < p {
                            assert(s@[q] == '.');
                        } else {
                            assert(is_dec_digit(s@.take(q)[p as int]));
                        }
                    }
                }
                return None;
            }
            j += 1;
        }
        assert(all_dec_digits(s@.skip(p + 1))) by {
            assert(s@.subrange(p + 1, n as int) =~= s@.skip(p + 1));
        }
        if n - p > 1 {
            assert(is_dec_digit(s@.skip(p + 1)[0]));
            f0 = (s[p + 1] as u64) - 48;
        }
        if n - p > 2 {
            assert(is_dec_digit(s@.skip(p + 1)[1]));
            f1 = (s[p + 2] as u64) - 48;
        }
        if n - p > 3 {
            assert(is_dec_digit(s@.skip(p + 1)[2]));
            f2 = (s[p + 3] as u64) - 48;
        }
    }
    let ghost pt: int = p as int;
    if p == n && n == 0 {
        assert forall|q: int| !point_splits(s@, q) by {}
        return None;
    }
    proof {
        assert(all_dec_digits(s@.take(pt)));
    }
    proof {
        assert(point_splits(s@, pt));
        lemma_point_unique(s@, pt, point_index(s@));
        assert(point_index(s@) == pt);
        assert(whole_part(s@) =~= s@.take(pt));
    }
    let ghost f = frac_part(s@);
    proof {
        if pt < s@.len() {
            assert(f =~= s@.skip(pt + 1));
        } else {
            assert(f =~= Seq::<char>::empty());
        }
        let padded = frac3(f);
        assert(padded.len() == 3);
        assert(digits_val(padded, 10) == (dec_digit_val(padded[0]) * 10 + dec_digit_val(
            padded[1],
        )) * 10 + dec_digit_val(padded[2])) by {
            let p01 = padded.drop_last();
            let p0 = p01.drop_last();
            assert(padded.last() == padded[2]);
            assert(p01.len() == 2 && p01.last() == padded[1] && p01[0] == padded[0]);
            assert(p0.len() == 1 && p0.last() == padded[0]);
            assert(p0.drop_last().len() == 0);
            assert(digits_val(p0.drop_last(), 10) == 0);
            assert(digits_val(p0, 10) == dec_digit_val(padded[0]));
            assert(digits_val(p01, 10) == dec_digit_val(padded[0]) * 10 + dec_digit_val(
                padded[1],
            ));
        }
        if f.len() > 0 {
            assert(padded[0] == f[0] == s@[pt + 1]);
        } else {
            assert(padded[0] == '0');
        }
        if f.len() > 1 {
            assert(padded[1] == f[1] == s@[pt + 2]);
        } else {
            assert(padded[1] == '0');
        }
        if f.len() > 2 {
            assert(padded[2] == f[2] == s@[pt + 3]);
        } else {
            assert(padded[2] == '0');
        }
    }
    let frac: u64 = (f0 * 10 + f1) * 10 + f2;
    assert(frac == frac_millis(f) && frac <= 999);
    if overflow {
        proof {
            assert(digits_val(s@.take(pt), 10) * 1000 + frac_millis(f) > u64::MAX)
                by (nonlinear_arith)
                requires
                    digits_val(s@.take(pt), 10) > u64::MAX,
            ;
        }
        return None;
    }
    if whole > (u64::MAX - frac) / 1000 {
        proof {
            assert(whole * 1000 + frac > u64::MAX) by (nonlinear_arith)
                requires
                    whole > (u64::MAX - frac) / 1000,
                    frac <= 999,
            ;
        }
        return None;
    }
    proof {
        assert(whole * 1000 + frac <= u64::MAX) by (nonlinear_arith)
            requires
                whole <= (u64::MAX - frac) / 1000,
                frac <= 999,
        ;
        assert(s@.take(pt).take(pt) =~= s@.take(pt));
    }
    Some(whole * 1000 + frac)
}

} // verus!
