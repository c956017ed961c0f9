//! Text primitives on `&str` / `String`, stated over their character views.

use vstd::prelude::*;
use vstd::string::StringSliceAdditionalSpecFns;

verus! {

// ---------------------------------------------------------------------------
// Characters in and out
// ---------------------------------------------------------------------------

/// The characters of `s`, in order.
pub fn chars_of(s: &str) -> (v: Vec<char>)
    ensures
        v@ == s@,
{
    let mut v: Vec<char> = Vec::new();
    for c in it: s.chars()
        invariant
            v@ == it.seq().take(it.index() as int),
    {
        v.push(c);
    }
    v
}

/// Appends one character: `String::push`, which the standard library documents
/// as appending the given `char` to the end of the string.
#[verifier::external_body]
pub(crate) fn push_char(s: &mut String, c: char)
    ensures
        final(s)@ == old(s)@.push(c),
{
    s.push(c);
}

/// A fresh string holding the characters of `v`.
pub fn string_of(v: &Vec<char>) -> (s: String)
    ensures
        s@ == v@,
{
    let mut s = String::new();
    let mut i: usize = 0;
    while i < v.len()
        invariant
            i <= v.len(),
            s@ == v@.take(i as int),
        decreases v.len() - i,
    {
        push_char(&mut s, v[i]);
        assert(v@.take(i + 1) =~= v@.take(i as int).push(v@[i as int]));
        i = i + 1;
    }
    assert(v@.take(v.len() as int) =~= v@);
    s
}

/// A fresh string holding the characters of `s`.
pub fn owned(s: &str) -> (r: String)
    ensures
        r@ == s@,
{
    let v = chars_of(s);
    string_of(&v)
}

/// `a` followed by `b`.
pub fn concat(a: &str, b: &str) -> (r: String)
    ensures
        r@ == a@ + b@,
{
    let mut r = owned(a);
    r.append(b);
    r
}

/// Whether two strings hold the same characters.
pub fn str_eq(a: &str, b: &str) -> (r: bool)
    ensures
        r == (a@ == b@),
{
    let x = chars_of(a);
    let y = chars_of(b);
    seq_eq(&x, &y)
}

/// Whether two character vectors are equal.
pub fn seq_eq(x: &Vec<char>, y: &Vec<char>) -> (r: bool)
    ensures
        r == (x@ == y@),
{
    if x.len() != y.len() {
        return false;
    }
    let mut i: usize = 0;
    while i < x.len()
        invariant
            x.len() == y.len(),
            i <= x.len(),
            forall|j: int| 0 <= j < i ==> x@[j] == y@[j],
        decreases x.len() - i,
    {
        if x[i] != y[i] {
            return false;
        }
        i = i + 1;
    }
    assert(x@ =~= y@);
    true
}

// ---------------------------------------------------------------------------
// Splitting on a separator character
// ---------------------------------------------------------------------------

/// The pieces of `s` between occurrences of `sep`, as `str::split(sep)` yields
/// them: there is always at least one piece, and `k` separators give `k + 1`
/// pieces (empty ones included).
pub open spec fn split_seq(s: Seq<char>, sep: char) -> Seq<Seq<char>>
    decreases s.len(),
{
    if s.len() == 0 {
        seq![Seq::<char>::empty()]
    } else {
        let p = split_seq(s.drop_last(), sep);
        if s.last() == sep {
            p.push(Seq::<char>::empty())
        } else {
            p.update(p.len() - 1, p.last().push(s.last()))
        }
    }
}

/// The pieces joined back together with `sep` between neighbours.
pub open spec fn join_seq(pieces: Seq<Seq<char>>, sep: char) -> Seq<char>
    decreases pieces.len(),
{
    if pieces.len() == 0 {
        Seq::<char>::empty()
    } else if pieces.len() == 1 {
        pieces[0]
    } else {
        join_seq(pieces.drop_last(), sep).push(sep) + pieces.last()
    }
}

/// The first piece of `split_seq`: everything before the first `sep`, or all of
/// `s` when it holds none (what `s.split(sep).next()` yields).
pub open spec fn before_sep(s: Seq<char>, sep: char) -> Seq<char> {
    split_seq(s, sep)[0]
}

/// The shape of the first piece: a prefix of `s` without `sep`, followed in
/// `s` by `sep` or by nothing; `s` splits into one piece exactly when that
/// piece is all of it.
pub proof fn lemma_before_sep_shape(s: Seq<char>, sep: char)
    ensures
        before_sep(s, sep).len() <= s.len(),
        before_sep(s, sep) =~= s.take(before_sep(s, sep).len() as int),
        !before_sep(s, sep).contains(sep),
        before_sep(s, sep).len() == s.len() || s[before_sep(s, sep).len() as int] == sep,
        (split_seq(s, sep).len() == 1) == (before_sep(s, sep).len() == s.len()),
        split_seq(s, sep).len() >= 1,
    decreases s.len(),
{
    if s.len() > 0 {
        let t = s.drop_last();
        lemma_before_sep_shape(t, sep);
        let p = split_seq(t, sep);
        let dt = p[0];
        if dt.len() < t.len() {
            assert(p.len() >= 2);
            if s.last() == sep {
                assert(split_seq(s, sep) == p.push(Seq::<char>::empty()));
                assert(split_seq(s, sep)[0] == dt);
            } else {
                assert(split_seq(s, sep) == p.update(p.len() - 1, p.last().push(s.last())));
                assert(split_seq(s, sep)[0] == dt);
            }
            assert(s[dt.len() as int] == t[dt.len() as int]);
        } else {
            assert(p.len() == 1);
            assert(dt =~= t);
            if s.last() == sep {
                assert(split_seq(s, sep) == p.push(Seq::<char>::empty()));
                assert(split_seq(s, sep)[0] == dt);
                assert(s[dt.len() as int] == s.last());
            } else {
                assert(split_seq(s, sep) == p.update(p.len() - 1, p.last().push(s.last())));
                assert(split_seq(s, sep)[0] =~= s);
                assert forall|i: int| 0 <= i < s.len() implies s[i] != sep by {
                    if i < t.len() {
                        assert(t[i] == s[i]);
                        assert(!t.contains(sep));
                    }
                }
            }
        }
    }
}

/// Law: the first piece is a prefix of `s` that holds no `sep`, followed in
/// `s` by `sep` or by nothing, and taking the first piece of it again gives
/// it back.
pub proof fn lemma_before_sep(s: Seq<char>, sep: char)
    ensures
        before_sep(s, sep).len() <= s.len(),
        before_sep(s, sep) =~= s.take(before_sep(s, sep).len() as int),
        !before_sep(s, sep).contains(sep),
        before_sep(s, sep).len() == s.len() || s[before_sep(s, sep).len() as int] == sep,
        before_sep(before_sep(s, sep), sep) == before_sep(s, sep),
{
    lemma_before_sep_shape(s, sep);
    let d = before_sep(s, sep);
    lemma_before_sep_shape(d, sep);
    let dd = before_sep(d, sep);
    if dd.len() < d.len() {
        assert(d[dd.len() as int] == sep);
        assert(d.contains(sep));
    }
    assert(dd =~= d.take(d.len() as int));
    assert(d.take(d.len() as int) =~= d);
}

pub proof fn lemma_split_nonempty(s: Seq<char>, sep: char)
    ensures
        split_seq(s, sep).len() >= 1,
    decreases s.len(),
{
    if s.len() > 0 {
        lemma_split_nonempty(s.drop_last(), sep);
    }
}

/// Law: splitting on `sep` and joining the pieces with `sep` gives back the
/// string, and no piece holds `sep`.
pub proof fn lemma_split_join(s: Seq<char>, sep: char)
    ensures
        join_seq(split_seq(s, sep), sep) == s,
        forall|i: int| 0 <= i < split_seq(s, sep).len() ==> !(#[trigger] split_seq(s, sep)[i]).contains(sep),
    decreases s.len(),
{
    lemma_split_nonempty(s, sep);
    if s.len() == 0 {
        assert forall|i: int| 0 <= i < split_seq(s, sep).len() implies !(#[trigger] split_seq(s, sep)[i]).contains(sep) by {
            assert(split_seq(s, sep)[i] =~= Seq::<char>::empty());
        }
    } else {
        let t = s.drop_last();
        let p = split_seq(t, sep);
        lemma_split_join(t, sep);
        lemma_split_nonempty(t, sep);
        if s.last() == sep {
            let q = p.push(Seq::<char>::empty());
            assert(q.drop_last() =~= p);
            assert(join_seq(q, sep) =~= join_seq(p, sep).push(sep));
            assert(s =~= t.push(sep));
            assert forall|i: int| 0 <= i < q.len() implies !(#[trigger] q[i]).contains(sep) by {
                if i == q.len() - 1 {
                    assert(q[i] =~= Seq::<char>::empty());
                }
            }
        } else {
            let last = p.last().push(s.last());
            let q = p.update(p.len() - 1, last);
            if p.len() == 1 {
                assert(join_seq(q, sep) == q[0]);
                assert(join_seq(p, sep) == p[0]);
                assert(s =~= t.push(s.last()));
            } else {
                assert(q.drop_last() =~= p.drop_last());
                assert(join_seq(q, sep) == join_seq(p.drop_last(), sep).push(sep) + last);
                assert(join_seq(p, sep) == join_seq(p.drop_last(), sep).push(sep) + p.last());
                assert(join_seq(q, sep) =~= join_seq(p, sep).push(s.last()));
                assert(s =~= t.push(s.last()));
            }
            assert forall|i: int| 0 <= i < q.len() implies !(#[trigger] q[i]).contains(sep) by {
                if i == q.len() - 1 {
                    assert(!p.last().contains(sep));
                    if last.contains(sep) {
                        let k = choose|k: int| 0 <= k < last.len() && last[k] == sep;
                        if k < p.last().len() {
                            assert(p.last()[k] == sep);
                        }
                    }
                } else {
                    assert(q[i] == p[i]);
                }
            }
        }
    }
}

/// The pieces of `s` between occurrences of `sep` (`str::split`, collected).
pub fn split_on(s: &str, sep: char) -> (pieces: Vec<String>)
    ensures
        pieces@.len() == split_seq(s@, sep).len(),
        forall|i: int| 0 <= i < pieces@.len() ==> (#[trigger] pieces@[i])@ == split_seq(s@, sep)[i],
{
    let cs = chars_of(s);
    let mut done: Vec<String> = Vec::new();
    let mut cur: Vec<char> = Vec::new();
    let mut i: usize = 0;
    while i < cs.len()
        invariant
            cs@ == s@,
            i <= cs.len(),
            split_seq(cs@.take(i as int), sep).len() == done@.len() + 1,
            forall|j: int| 0 <= j < done@.len() ==> (#[trigger] done@[j])@ == split_seq(cs@.take(i as int), sep)[j],
            cur@ == split_seq(cs@.take(i as int), sep).last(),
        decreases cs.len() - i,
    {
        let c = cs[i];
        let ghost before = cs@.take(i as int);
        assert(cs@.take(i + 1).drop_last() =~= before);
        if c == sep {
            let piece = string_of(&cur);
            done.push(piece);
            cur = Vec::new();
        } else {
            cur.push(c);
        }
        i = i + 1;
    }
    assert(cs@.take(cs.len() as int) =~= s@);
    let piece = string_of(&cur);
    done.push(piece);
    done
}

/// Everything before the first `sep` in `s`, or all of `s`
/// (`s.split(sep).next()`).
pub fn before_first(s: &str, sep: char) -> (r: String)
    ensures
        r@ == before_sep(s@, sep),
{
    let pieces = split_on(s, sep);
    proof { lemma_split_nonempty(s@, sep); }
    owned(pieces[0].as_str())
}

// ---------------------------------------------------------------------------
// Prefixes and substrings
// ---------------------------------------------------------------------------

/// Whether `s` begins with `p`.
pub open spec fn has_prefix(s: Seq<char>, p: Seq<char>) -> bool {
    p.len() <= s.len() && s.take(p.len() as int) == p
}

/// Whether `n` occurs as a contiguous run inside `h`.
pub open spec fn has_substring(h: Seq<char>, n: Seq<char>) -> bool {
    exists|i: int| 0 <= i && i + n.len() <= h.len() && #[trigger] h.subrange(i, i + n.len()) == n
}

/// Whether `x` matches `y` at position `at`.
fn matches_at(x: &Vec<char>, y: &Vec<char>, at: usize) -> (r: bool)
    requires
        at + y.len() <= x.len(),
    ensures
        r == (x@.subrange(at as int, at + y.len()) == y@),
{
    let mut j: usize = 0;
    while j < y.len()
        invariant
            at + y.len() <= x.len(),
            j <= y.len(),
            forall|k: int| 0 <= k < j ==> x@[at + k] == y@[k],
        decreases y.len() - j,
    {
        if x[at + j] != y[j] {
            assert(x@.subrange(at as int, at + y.len())[j as int] != y@[j as int]);
            return false;
        }
        j = j + 1;
    }
    assert(x@.subrange(at as int, at + y.len()) =~= y@);
    true
}

/// `str::starts_with` for a string pattern.
pub fn starts_with(s: &str, p: &str) -> (r: bool)
    ensures
        r == has_prefix(s@, p@),
{
    let x = chars_of(s);
    let y = chars_of(p);
    if y.len() > x.len() {
        return false;
    }
    let r = matches_at(&x, &y, 0);
    assert(x@.subrange(0, y@.len() as int) =~= x@.take(y@.len() as int));
    r
}

/// Whether `needle` occurs in `hay` (`str::contains` for a string pattern).
pub fn contains(hay: &str, needle: &str) -> (r: bool)
    ensures
        r == has_substring(hay@, needle@),
{
    let x = chars_of(hay);
    let y = chars_of(needle);
    if y.len() > x.len() {
        return false;
    }
    let last = x.len() - y.len();
    let mut at: usize = 0;
    while at <= last
        invariant
            x@ == hay@,
            y@ == needle@,
            last + y.len() == x.len(),
            at <= last,
            forall|k: int| 0 <= k < at ==> #[trigger] x@.subrange(k, k + y@.len()) != y@,
        ensures
            forall|k: int| 0 <= k <= last ==> #[trigger] x@.subrange(k, k + y@.len()) != y@,
        decreases last - at,
    {
        if matches_at(&x, &y, at) {
            assert(x@.subrange(at as int, at + y@.len()) == y@);
            return true;
        }
        if at == last {
            break;
        }
        at = at + 1;
    }
    assert forall|i: int| 0 <= i && i + y@.len() <= x@.len() implies #[trigger] x@.subrange(i, i + y@.len()) != y@ by {
        assert(i <= last);
    }
    false
}

/// Whether `s` holds the character `c`.
pub fn contains_char(s: &str, c: char) -> (r: bool)
    ensures
        r == s@.contains(c),
{
    let x = chars_of(s);
    let mut i: usize = 0;
    while i < x.len()
        invariant
            x@ == s@,
            i <= x.len(),
            forall|k: int| 0 <= k < i ==> x@[k] != c,
        decreases x.len() - i,
    {
        if x[i] == c {
            return true;
        }
        i = i + 1;
    }
    false
}

// ---------------------------------------------------------------------------
// Case folding
// ---------------------------------------------------------------------------

/// What `str::to_lowercase` returns for a string with the characters `s`.
pub uninterp spec fn lowercase(s: Seq<char>) -> Seq<char>;

/// `str::to_lowercase`: the lowercase equivalent of `s` by Unicode's rules,
/// which depend on the characters alone. Its result is named `lowercase`;
/// beyond that, only that the lowercase form of an empty string is empty (it
/// maps each character to its lowercase characters) is stated.
#[verifier::external_body]
pub(crate) fn to_lowercase(s: &str) -> (r: String)
    ensures
        r@ == lowercase(s@),
        s@.len() == 0 ==> r@.len() == 0,
{
    s.to_lowercase()
}

// ---------------------------------------------------------------------------
// Ordering
// ---------------------------------------------------------------------------

/// Lexicographic order on characters by code point: the order of `<` on
/// `str`, which compares UTF-8 bytes, and UTF-8 keeps code point order.
pub open spec fn text_less(a: Seq<char>, b: Seq<char>) -> bool
    decreases a.len(),
{
    if a.len() == 0 {
        b.len() > 0
    } else if b.len() == 0 {
        false
    } else if a[0] != b[0] {
        a[0] < b[0]
    } else {
        text_less(a.drop_first(), b.drop_first())
    }
}

pub proof fn lemma_text_less_irreflexive(a: Seq<char>)
    ensures
        !text_less(a, a),
    decreases a.len(),
{
    if a.len() > 0 {
        lemma_text_less_irreflexive(a.drop_first());
    }
}

pub proof fn lemma_text_less_transitive(a: Seq<char>, b: Seq<char>, c: Seq<char>)
    requires
        text_less(a, b),
        text_less(b, c),
    ensures
        text_less(a, c),
    decreases a.len(),
{
    if a.len() > 0 && b.len() > 0 && c.len() > 0 {
        if a[0] == b[0] && b[0] == c[0] {
            lemma_text_less_transitive(a.drop_first(), b.drop_first(), c.drop_first());
        }
    }
}

pub proof fn lemma_text_less_total(a: Seq<char>, b: Seq<char>)
    ensures
        a == b || text_less(a, b) || text_less(b, a),
    decreases a.len(),
{
    if a.len() > 0 && b.len() > 0 {
        if a[0] == b[0] {
            lemma_text_less_total(a.drop_first(), b.drop_first());
            if a.drop_first() == b.drop_first() {
                assert(a =~= seq![a[0]] + a.drop_first());
                assert(b =~= seq![b[0]] + b.drop_first());
            }
        }
    } else if a.len() == 0 && b.len() == 0 {
        assert(a =~= b);
    }
}

/// Whether `x` comes before `y` (`<` on strings).
pub fn chars_less(x: &Vec<char>, y: &Vec<char>) -> (r: bool)
    ensures
        r == text_less(x@, y@),
{
    let mut i: usize = 0;
    assert(x@.skip(0) =~= x@);
    assert(y@.skip(0) =~= y@);
    while i < x.len() && i < y.len()
        invariant
            i <= x.len(),
            i <= y.len(),
            text_less(x@, y@) == text_less(x@.skip(i as int), y@.skip(i as int)),
        decreases x.len() - i,
    {
        assert(x@.skip(i as int)[0] == x@[i as int]);
        assert(y@.skip(i as int)[0] == y@[i as int]);
        if x[i] != y[i] {
            return x[i] < y[i];
        }
        assert(x@.skip(i as int).drop_first() =~= x@.skip(i + 1));
        assert(y@.skip(i as int).drop_first() =~= y@.skip(i + 1));
        i = i + 1;
    }
    assert(x@.skip(i as int).len() == 0 || y@.skip(i as int).len() == 0);
    i < y.len()
}

/// Whether `a` comes before `b` (`<` on strings).
pub fn str_less(a: &str, b: &str) -> (r: bool)
    ensures
        r == text_less(a@, b@),
{
    let x = chars_of(a);
    let y = chars_of(b);
    chars_less(&x, &y)
}

// ---------------------------------------------------------------------------
// Byte prefixes
// ---------------------------------------------------------------------------

/// The first `n` bytes of `s` when it has at least `n` (`&s[..n]`, owned), or
/// `None` when it is shorter.
pub fn byte_prefix(s: &str, n: usize) -> (r: Option<String>)
    requires
        encode_utf8_of(s@).len() <= usize::MAX,
        encode_utf8_of(s@).len() >= n ==> vstd::utf8::is_char_boundary(encode_utf8_of(s@), n as int),
    ensures
        r.is_some() == (encode_utf8_of(s@).len() >= n),
        r matches Some(p) ==> encode_utf8_of(p@) == encode_utf8_of(s@).take(n as int),
{
    if s.len() >= n {
        let (head, _tail) = s.split_at(n);
        let p = owned(head);
        assert(head.spec_bytes() =~= s.spec_bytes().subrange(0, n as int));
        assert(s.spec_bytes().subrange(0, n as int) =~= s.spec_bytes().take(n as int));
        Some(p)
    } else {
        None
    }
}

/// The UTF-8 bytes of a character sequence.
pub open spec fn encode_utf8_of(s: Seq<char>) -> Seq<u8> {
    vstd::utf8::encode_utf8(s)
}

// ---------------------------------------------------------------------------
// Small helpers used by the pages
// ---------------------------------------------------------------------------

/// Whether `field`, lowercased, holds `query` (a query already lowercased).
pub open spec fn folded_match(field: Seq<char>, query: Seq<char>) -> bool {
    has_substring(lowercase(field), query)
}

/// `field.to_lowercase().contains(query)`.
pub fn folded_contains(field: &str, query: &str) -> (r: bool)
    ensures
        r == folded_match(field@, query@),
{
    let f = to_lowercase(field);
    contains(f.as_str(), query)
}

/// `o.as_ref().map(|v| v.to_lowercase().contains(query)).unwrap_or(false)`.
pub fn opt_folded_contains(o: &Option<String>, query: &str) -> (r: bool)
    ensures
        r == (o matches Some(v) && folded_match(v@, query@)),
{
    match o {
        Some(v) => folded_contains(v.as_str(), query),
        None => false,
    }
}

/// The characters of an optional string.
pub open spec fn opt_view(o: Option<String>) -> Option<Seq<char>> {
    match o {
        Some(v) => Some(v@),
        None => None,
    }
}

/// The text in `o`, or `default` when there is none (`unwrap_or`).
pub fn text_or(o: &Option<String>, default: &str) -> (r: String)
    ensures
        r@ == (match o {
            Some(v) => v@,
            None => default@,
        }),
{
    match o {
        Some(v) => owned(v.as_str()),
        None => owned(default),
    }
}

/// `None` for an empty string, else the string.
pub fn non_empty(s: &str) -> (r: Option<String>)
    ensures
        r.is_some() == (s@.len() > 0),
        r matches Some(v) ==> v@ == s@,
{
    if s.is_empty() {
        None
    } else {
        Some(owned(s))
    }
}

// ---------------------------------------------------------------------------
// Percent-encoding
// ---------------------------------------------------------------------------

/// Bytes that pass through percent-encoding unchanged: ASCII letters and
/// digits and `-`, `.`, `_`, `~`.
pub open spec fn url_safe(b: u8) -> bool {
    (48 <= b <= 57) || (65 <= b <= 90) || (97 <= b <= 122) || b == 45 || b == 46 || b == 95 || b == 126
}

/// An upper-case hexadecimal digit.
pub open spec fn hex_upper(d: int) -> char {
    if d < 10 { (48 + d) as char } else { (55 + d) as char }
}

/// Every byte percent-encoded as `%XY` (upper-case hex) except the safe ones,
/// which stand as themselves.
pub open spec fn percent_encoded(bytes: Seq<u8>) -> Seq<char>
    decreases bytes.len(),
{
    if bytes.len() == 0 {
        Seq::empty()
    } else {
        let b = bytes.last();
        percent_encoded(bytes.drop_last()) + if url_safe(b) {
            seq![b as char]
        } else {
            seq!['%', hex_upper(b as int / 16), hex_upper(b as int % 16)]
        }
    }
}

/// `urlencoding::encode`: percent-encodes every byte of the UTF-8 form of `s`
/// except ASCII alphanumerics and `-`, `_`, `.`, `~`, with upper-case hex
/// digits, as the crate's `encode_into` and `to_hex_digit` do.
#[verifier::external_body]
pub(crate) fn url_encode(s: &str) -> (r: String)
    ensures
        r@ == percent_encoded(encode_utf8_of(s@)),
{
    urlencoding::encode(s).into_owned()
}

} // verus!
