//! Decimal integers as text: reading them (`str::parse`) and writing them
//! (`to_string`, zero-padded `{:0w}`), stated over character views.

use vstd::prelude::*;
use crate::text::{chars_of, string_of};

verus! {

pub open spec fn is_digit(c: char) -> bool {
    '0' <= c && c <= '9'
}

pub open spec fn digit_value(c: char) -> int {
    (c as int) - ('0' as int)
}

pub open spec fn all_digits(s: Seq<char>) -> bool {
    forall|i: int| 0 <= i < s.len() ==> is_digit(#[trigger] s[i])
}

/// The value of a run of decimal digits, most significant first.
pub open spec fn digits_value(s: Seq<char>) -> int
    decreases s.len(),
{
    if s.len() == 0 {
        0
    } else {
        digits_value(s.drop_last()) * 10 + digit_value(s.last())
    }
}

/// The integer that Rust's `FromStr` for integers reads from `s`, before any
/// range check: an optional `+` or `-`, then one or more decimal digits and
/// nothing else.
pub open spec fn int_value(s: Seq<char>) -> Option<int> {
    if s.len() == 0 {
        None
    } else if s[0] == '-' || s[0] == '+' {
        let d = s.drop_first();
        if d.len() > 0 && all_digits(d) {
            Some(if s[0] == '-' { -digits_value(d) } else { digits_value(d) })
        } else {
            None
        }
    } else if all_digits(s) {
        Some(digits_value(s))
    } else {
        None
    }
}

/// What `s.parse::<i64>().ok()` gives.
pub open spec fn parsed_i64(s: Seq<char>) -> Option<i64> {
    match int_value(s) {
        Some(n) => if i64::MIN <= n <= i64::MAX { Some(n as i64) } else { None },
        None => None,
    }
}

/// What `s.parse::<i32>().ok()` gives.
pub open spec fn parsed_i32(s: Seq<char>) -> Option<i32> {
    match int_value(s) {
        Some(n) => if i32::MIN <= n <= i32::MAX { Some(n as i32) } else { None },
        None => None,
    }
}

pub proof fn lemma_digits_nonneg(s: Seq<char>)
    requires
        all_digits(s),
    ensures
        digits_value(s) >= 0,
    decreases s.len(),
{
    if s.len() > 0 {
        assert(all_digits(s.drop_last())) by {
            assert forall|i: int| 0 <= i < s.drop_last().len() implies is_digit(#[trigger] s.drop_last()[i]) by {
                assert(s.drop_last()[i] == s[i]);
            }
        }
        lemma_digits_nonneg(s.drop_last());
        assert(is_digit(s[s.len() - 1]));
    }
}

/// Reading more digits never lowers the value.
pub proof fn lemma_digits_grow(s: Seq<char>, k: int)
    requires
        all_digits(s),
        0 <= k <= s.len(),
    ensures
        digits_value(s.take(k)) <= digits_value(s),
    decreases s.len() - k,
{
    if k < s.len() {
        let t = s.take(k + 1);
        assert(t.drop_last() =~= s.take(k));
        assert(is_digit(s[k]));
        assert(all_digits(t.drop_last())) by {
            assert forall|i: int| 0 <= i < t.drop_last().len() implies is_digit(#[trigger] t.drop_last()[i]) by {
                assert(t.drop_last()[i] == s[i]);
            }
        }
        lemma_digits_nonneg(t.drop_last());
        assert(t.last() == s[k]);
        assert(digits_value(t) >= digits_value(s.take(k)));
        lemma_digits_grow(s, k + 1);
    } else {
        assert(s.take(k) =~= s);
    }
}

/// Reads the decimal digits `cs[start..]` into a value no larger than `limit`,
/// or `None` when they are not all digits or their value exceeds `limit`.
fn read_digits(cs: &Vec<char>, start: usize, limit: u64) -> (r: Option<u64>)
    requires
        start <= cs.len(),
        limit >= 9,
    ensures
        match r {
            Some(v) => v <= limit && all_digits(cs@.skip(start as int)) && v == digits_value(cs@.skip(start as int)),
            None => !all_digits(cs@.skip(start as int)) || digits_value(cs@.skip(start as int)) > limit,
        },
{
    let ghost d = cs@.skip(start as int);
    let mut acc: u64 = 0;
    let mut i: usize = start;
    while i < cs.len()
        invariant
            start <= i <= cs.len(),
            d == cs@.skip(start as int),
            all_digits(d.take(i - start)),
            acc == digits_value(d.take(i - start)),
            acc <= limit,
            limit >= 9,
        decreases cs.len() - i,
    {
        let c = cs[i];
        let ghost t = d.take(i - start + 1);
        assert(t.drop_last() =~= d.take(i - start));
        assert(t.last() == c);
        if !('0' <= c && c <= '9') {
            assert(!is_digit(d[i - start]));
            return None;
        }
        assert(all_digits(t)) by {
            assert forall|j: int| 0 <= j < t.len() implies is_digit(#[trigger] t[j]) by {
                if j < t.len() - 1 {
                    assert(t[j] == d.take(i - start)[j]);
                }
            }
        }
        let dv: u64 = (c as u32 - '0' as u32) as u64;
        assert(dv == digit_value(c));
        if acc > (limit - dv) / 10 {
            assert(acc * 10 + dv > limit) by (nonlinear_arith)
                requires
                    acc > (limit - dv) / 10,
                    dv <= 9,
                    dv <= limit || true,
            {
            }
            proof {
                if all_digits(d) {
                    lemma_digits_grow(d, i - start + 1);
                }
            }
            return None;
        }
        assert(acc * 10 + dv <= limit) by (nonlinear_arith)
            requires
                acc <= (limit - dv) / 10,
                dv <= 9,
        {
        }
        acc = acc * 10 + dv;
        i = i + 1;
    }
    assert(d.take(i - start) =~= d);
    Some(acc)
}

/// `s.parse::<i64>().ok()`.
pub fn parse_i64(s: &str) -> (r: Option<i64>)
    ensures
        r == parsed_i64(s@),
{
    let cs = chars_of(s);
    if cs.len() == 0 {
        return None;
    }
    let first = cs[0];
    let signed = first == '-' || first == '+';
    let neg = first == '-';
    let start: usize = if signed { 1 } else { 0 };
    if start == cs.len() {
        return None;
    }
    assert(cs@.skip(0) =~= cs@);
    assert(cs@.skip(1) =~= cs@.drop_first());
    let limit: u64 = if neg { 9223372036854775808 } else { 9223372036854775807 };
    match read_digits(&cs, start, limit) {
        None => None,
        Some(v) => {
            if neg {
                if v == 9223372036854775808 {
                    Some(i64::MIN)
                } else {
                    Some(0 - (v as i64))
                }
            } else {
                Some(v as i64)
            }
        },
    }
}

/// `s.parse::<i32>().ok()`.
pub fn parse_i32(s: &str) -> (r: Option<i32>)
    ensures
        r == parsed_i32(s@),
{
    match parse_i64(s) {
        Some(n) => {
            if i32::MIN as i64 <= n && n <= i32::MAX as i64 {
                Some(n as i32)
            } else {
                None
            }
        },
        None => {
            assert(parsed_i32(s@).is_none());
            None
        },
    }
}

// ---------------------------------------------------------------------------
// Writing
// ---------------------------------------------------------------------------

pub open spec fn digit_char(d: int) -> char {
    (('0' as int) + d) as char
}

/// The decimal digits of `n`, most significant first, without leading zeros.
pub open spec fn nat_text(n: nat) -> Seq<char>
    decreases n,
{
    if n < 10 {
        seq![digit_char(n as int)]
    } else {
        nat_text(n / 10).push(digit_char((n % 10) as int))
    }
}

/// `n.to_string()` for a signed integer.
pub open spec fn int_text(n: int) -> Seq<char> {
    if n < 0 {
        seq!['-'] + nat_text((-n) as nat)
    } else {
        nat_text(n as nat)
    }
}

/// `k` zeros (none when `k` is not positive).
pub open spec fn zeros(k: int) -> Seq<char> {
    Seq::new(if k > 0 { k as nat } else { 0 }, |i: int| '0')
}

/// `format!("{:0w$}", n)`: the sign, then zeros, then the digits, at least
/// `width` characters in all.
pub open spec fn padded_text(n: int, width: int) -> Seq<char> {
    if n < 0 {
        let d = nat_text((-n) as nat);
        seq!['-'] + zeros(width - 1 - d.len()) + d
    } else {
        let d = nat_text(n as nat);
        zeros(width - d.len()) + d
    }
}

pub proof fn lemma_digit_char(d: int)
    requires
        0 <= d < 10,
    ensures
        is_digit(digit_char(d)),
        digit_value(digit_char(d)) == d,
{
}

/// The digits of `n` are digits, and read back as `n`.
pub proof fn lemma_nat_text(n: nat)
    ensures
        nat_text(n).len() >= 1,
        all_digits(nat_text(n)),
        digits_value(nat_text(n)) == n,
    decreases n,
{
    if n < 10 {
        lemma_digit_char(n as int);
        let t = nat_text(n);
        assert(t.drop_last() =~= Seq::<char>::empty());
        assert(digits_value(t.drop_last()) == 0);
        assert(digits_value(t) == digits_value(t.drop_last()) * 10 + digit_value(t.last()));
    } else {
        lemma_nat_text(n / 10);
        lemma_digit_char((n % 10) as int);
        let t = nat_text(n);
        assert(t.drop_last() =~= nat_text(n / 10));
        assert(t.last() == digit_char((n % 10) as int));
        assert(digits_value(t) == digits_value(t.drop_last()) * 10 + digit_value(t.last()));
        assert((n / 10) * 10 + n % 10 == n);
        assert forall|i: int| 0 <= i < t.len() implies is_digit(#[trigger] t[i]) by {
            if i < t.len() - 1 {
                assert(t[i] == nat_text(n / 10)[i]);
            }
        }
    }
}

/// Law: reading back what `to_string` writes gives the number again.
pub proof fn lemma_int_text_roundtrip(n: int)
    ensures
        int_value(int_text(n)) == Some(n),
{
    if n < 0 {
        let m = (-n) as nat;
        lemma_nat_text(m);
        let s = int_text(n);
        assert(s.drop_first() =~= nat_text(m));
    } else {
        let m = n as nat;
        lemma_nat_text(m);
        assert(is_digit(nat_text(m)[0]));
    }
}

/// Law: an `i64` written with `to_string` parses back to itself.
pub proof fn lemma_i64_roundtrip(n: i64)
    ensures
        parsed_i64(int_text(n as int)) == Some(n),
{
    lemma_int_text_roundtrip(n as int);
}

/// The digits of `n`, most significant first.
fn digits_of(n: u64) -> (v: Vec<char>)
    ensures
        v@ == nat_text(n as nat),
{
    let mut v: Vec<char> = Vec::new();
    let mut q: u64 = n;
    while q >= 10
        invariant
            nat_text(n as nat) == nat_text(q as nat) + v@,
        decreases q,
    {
        let d: u64 = q % 10;
        let c: char = ((48 + d) as u8) as char;
        assert(c == digit_char(d as int));
        let ghost old_v = v@;
        v.insert(0, c);
        assert(nat_text(q as nat) == nat_text((q / 10) as nat).push(digit_char((q % 10) as int)));
        assert(nat_text(q as nat) + old_v =~= nat_text((q / 10) as nat) + v@);
        q = q / 10;
    }
    let c: char = ((48 + q) as u8) as char;
    assert(c == digit_char(q as int));
    let ghost old_v = v@;
    v.insert(0, c);
    assert(nat_text(q as nat) + old_v =~= v@);
    v
}

/// The magnitude of `n` as an unsigned number.
fn magnitude(n: i64) -> (m: u64)
    ensures
        m as int == if n < 0 { -(n as int) } else { n as int },
{
    if n < 0 {
        if n == i64::MIN {
            9223372036854775808
        } else {
            (0 - n) as u64
        }
    } else {
        n as u64
    }
}

/// `n.to_string()`.
pub fn int_to_string(n: i64) -> (s: String)
    ensures
        s@ == int_text(n as int),
{
    let d = digits_of(magnitude(n));
    if n < 0 {
        let mut v: Vec<char> = Vec::new();
        v.push('-');
        let mut i: usize = 0;
        while i < d.len()
            invariant
                i <= d.len(),
                v@ == seq!['-'] + d@.take(i as int),
            decreases d.len() - i,
        {
            v.push(d[i]);
            assert(seq!['-'] + d@.take(i + 1) =~= (seq!['-'] + d@.take(i as int)).push(d@[i as int]));
            i = i + 1;
        }
        assert(d@.take(d.len() as int) =~= d@);
        string_of(&v)
    } else {
        string_of(&d)
    }
}

/// `n.to_string()` for a count.
pub fn count_to_string(n: usize) -> (s: String)
    ensures
        s@ == nat_text(n as nat),
{
    let d = digits_of(n as u64);
    string_of(&d)
}

/// `format!("{:0width$}", n)`.
pub fn padded_to_string(n: i64, width: usize) -> (s: String)
    ensures
        s@ == padded_text(n as int, width as int),
{
    let d = digits_of(magnitude(n));
    let mut v: Vec<char> = Vec::new();
    let room: usize = if n < 0 {
        v.push('-');
        if width > 0 && width - 1 > d.len() { width - 1 - d.len() } else { 0 }
    } else {
        if width > d.len() { width - d.len() } else { 0 }
    };
    let ghost head = v@;
    let mut k: usize = 0;
    while k < room
        invariant
            k <= room,
            v@ == head + zeros(k as int),
        decreases room - k,
    {
        v.push('0');
        assert(head + zeros(k + 1) =~= (head + zeros(k as int)).push('0'));
        k = k + 1;
    }
    let ghost mid = v@;
    let mut i: usize = 0;
    while i < d.len()
        invariant
            i <= d.len(),
            v@ == mid + d@.take(i as int),
        decreases d.len() - i,
    {
        v.push(d[i]);
        assert(mid + d@.take(i + 1) =~= (mid + d@.take(i as int)).push(d@[i as int]));
        i = i + 1;
    }
    assert(d@.take(d.len() as int) =~= d@);
    proof {
        if n < 0 {
            assert(zeros(room as int) =~= zeros(width - 1 - d@.len()));
            assert(head =~= seq!['-']);
        } else {
            assert(zeros(room as int) =~= zeros(width - d@.len()));
            assert(head =~= Seq::<char>::empty());
            assert(v@ =~= zeros(width - d@.len()) + d@);
        }
    }
    string_of(&v)
}

} // verus!
