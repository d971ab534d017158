//! Text handling on the character sequences of strings: comparison, integer
//! parsing and trimming, as the standard library defines them.

use vstd::prelude::*;
use vstd::string::*;

verus! {

/// Lexicographic "less than" on character sequences, comparing code points; the
/// order of `str`'s `cmp`, since UTF-8 keeps the order of code points.
pub open spec fn text_less(a: Seq<char>, b: Seq<char>) -> bool
    decreases a.len(),
{
    if a.len() == 0 {
        b.len() > 0
    } else if b.len() == 0 {
        false
    } else if a[0] != b[0] {
        (a[0] as int) < (b[0] as int)
    } else {
        text_less(a.drop_first(), b.drop_first())
    }
}

/// No text sorts before itself.
pub proof fn lemma_text_less_irreflexive(a: Seq<char>)
    ensures
        !text_less(a, a),
    decreases a.len(),
{
    if a.len() > 0 {
        lemma_text_less_irreflexive(a.drop_first());
    }
}

/// The text order is transitive.
pub proof fn lemma_text_less_transitive(a: Seq<char>, b: Seq<char>, c: Seq<char>)
    requires
        text_less(a, b),
        text_less(b, c),
    ensures
        text_less(a, c),
    decreases a.len(),
{
    if a.len() > 0 && b.len() > 0 && c.len() > 0 && a[0] == b[0] && b[0] == c[0] {
        lemma_text_less_transitive(a.drop_first(), b.drop_first(), c.drop_first());
    }
}

/// Of two different texts, one sorts before the other.
pub proof fn lemma_text_less_total(a: Seq<char>, b: Seq<char>)
    requires
        a != b,
    ensures
        text_less(a, b) || text_less(b, a),
    decreases a.len(),
{
    if a.len() > 0 && b.len() > 0 {
        if a[0] == b[0] {
            if a.drop_first() == b.drop_first() {
                assert(a =~= seq![a[0]] + a.drop_first());
                assert(b =~= seq![b[0]] + b.drop_first());
            }
            lemma_text_less_total(a.drop_first(), b.drop_first());
        } else {
            assert((a[0] as int) != (b[0] as int));
        }
    } else if a.len() == 0 && b.len() == 0 {
        assert(a =~= b);
    }
}

/// Whether two strings hold the same characters.
pub fn text_eq(a: &str, b: &str) -> (eq: bool)
    ensures
        eq == (a@ == b@),
{
    let n = a.unicode_len();
    let m = b.unicode_len();
    if n != m {
        return false;
    }
    let mut i: usize = 0;
    while i < n
        invariant
            n == a@.len(),
            m == b@.len(),
            n == m,
            i <= n,
            forall|k: int| 0 <= k < i ==> a@[k] == b@[k],
        decreases n - i,
    {
        if a.get_char(i) != b.get_char(i) {
            return false;
        }
        i = i + 1;
    }
    assert(a@ =~= b@);
    true
}

proof fn lemma_text_less_skip(a: Seq<char>, b: Seq<char>, i: int)
    requires
        0 <= i < a.len(),
        i < b.len(),
        a[i] == b[i],
    ensures
        text_less(a.skip(i), b.skip(i)) == text_less(a.skip(i + 1), b.skip(i + 1)),
{
    assert(a.skip(i).drop_first() =~= a.skip(i + 1));
    assert(b.skip(i).drop_first() =~= b.skip(i + 1));
}

/// Whether `a` sorts before `b`.
pub fn text_lt(a: &str, b: &str) -> (lt: bool)
    ensures
        lt == text_less(a@, b@),
{
    let n = a.unicode_len();
    let m = b.unicode_len();
    let mut i: usize = 0;
    assert(a@.skip(0) =~= a@ && b@.skip(0) =~= b@);
    while i < n && i < m
        invariant
            n == a@.len(),
            m == b@.len(),
            i <= n,
            i <= m,
            text_less(a@, b@) == text_less(a@.skip(i as int), b@.skip(i as int)),
        decreases n - i,
    {
        let ca = a.get_char(i);
        let cb = b.get_char(i);
        if ca != cb {
            assert(a@.skip(i as int)[0] == ca && b@.skip(i as int)[0] == cb);
            return (ca as u32) < (cb as u32);
        }
        proof {
            lemma_text_less_skip(a@, b@, i as int);
        }
        i = i + 1;
    }
    i < m
}

pub open spec fn is_ascii_digit(c: char) -> bool {
    '0' <= c && c <= '9'
}

/// The value of a string of decimal digits.
pub open spec fn decimal_value(s: Seq<char>) -> int
    decreases s.len(),
{
    if s.len() == 0 {
        0
    } else {
        decimal_value(s.drop_last()) * 10 + (s.last() as int - '0' as int)
    }
}

/// The characters after a leading `+` or `-`, if there is one.
pub open spec fn unsigned_part(s: Seq<char>) -> Seq<char> {
    if s.len() > 0 && (s[0] == '-' || s[0] == '+') {
        s.drop_first()
    } else {
        s
    }
}

pub open spec fn all_ascii_digits(t: Seq<char>) -> bool {
    forall|i: int| 0 <= i < t.len() ==> is_ascii_digit(#[trigger] t[i])
}

/// A sign (optional `+`, or `-`) and at least one digit, nothing else.
pub open spec fn signed_decimal(s: Seq<char>) -> Option<int> {
    let body = unsigned_part(s);
    if body.len() > 0 && all_ascii_digits(body) {
        Some(if s.len() > 0 && s[0] == '-' { -decimal_value(body) } else { decimal_value(body) })
    } else {
        None
    }
}

/// What `str::parse::<isize>` gives: the signed decimal value when it fits.
pub open spec fn parsed_isize(s: Seq<char>) -> Option<isize> {
    match signed_decimal(s) {
        Some(v) => if isize::MIN <= v <= isize::MAX { Some(v as isize) } else { None },
        None => None,
    }
}

proof fn lemma_decimal_grows(s: Seq<char>, c: char)
    requires
        is_ascii_digit(c),
    ensures
        decimal_value(s.push(c)) >= decimal_value(s) * 10,
        decimal_value(s.push(c)) == decimal_value(s) * 10 + (c as int - '0' as int),
{
    assert(s.push(c).drop_last() =~= s);
}

/// Parse a decimal `isize` as `str::parse` does: an optional `+` or `-`, then one or
/// more ASCII digits, with a value in range.
pub fn parse_isize(s: &str) -> (v: Option<isize>)
    ensures
        v == parsed_isize(s@),
{
    let n = s.unicode_len();
    if n == 0 {
        return None;
    }
    let first = s.get_char(0);
    let neg = first == '-';
    let start: usize = if first == '-' || first == '+' { 1 } else { 0 };
    let ghost body = unsigned_part(s@);
    assert(body =~= s@.subrange(start as int, n as int));
    if start == n {
        return None;
    }
    let limit: i128 = isize::MAX as i128 + 1;
    let mut acc: i128 = 0;
    let mut too_big = false;
    let mut i: usize = start;
    assert(s@.subrange(start as int, start as int) =~= Seq::<char>::empty());
    while i < n
        invariant
            n == s@.len(),
            start <= i <= n,
            limit == isize::MAX + 1,
            body == s@.subrange(start as int, n as int),
            body == unsigned_part(s@),
            forall|k: int| start <= k < i ==> is_ascii_digit(#[trigger] s@[k]),
            !too_big ==> 0 <= acc <= limit && acc == decimal_value(s@.subrange(start as int, i as int)),
            too_big ==> decimal_value(s@.subrange(start as int, i as int)) > limit,
        decreases n - i,
    {
        let c = s.get_char(i);
        if !('0' <= c && c <= '9') {
            assert(body[i - start] == c);
            assert(!is_ascii_digit(body[i - start]));
            assert(!all_ascii_digits(body));
            return None;
        }
        let ghost prefix = s@.subrange(start as int, i as int);
        assert(s@.subrange(start as int, i + 1) =~= prefix.push(c));
        proof {
            lemma_decimal_grows(prefix, c);
        }
        let d: i128 = (c as u32 - '0' as u32) as i128;
        if !too_big {
            let next = acc * 10 + d;
            if next > limit {
                too_big = true;
            } else {
                acc = next;
            }
        }
        i = i + 1;
    }
    assert(body =~= s@.subrange(start as int, n as int));
    assert(forall|k: int| 0 <= k < body.len() ==> is_ascii_digit(#[trigger] body[k])) by {
        assert forall|k: int| 0 <= k < body.len() implies is_ascii_digit(#[trigger] body[k]) by {
            assert(body[k] == s@[k + start]);
        }
    }
    if too_big {
        None
    } else if neg {
        if acc <= limit {
            Some((0 - acc) as isize)
        } else {
            None
        }
    } else if acc < limit {
        Some(acc as isize)
    } else {
        None
    }
}

/// The characters of `s` with trailing NUL characters removed.
pub open spec fn without_trailing_nuls(s: Seq<char>) -> Seq<char>
    decreases s.len(),
{
    if s.len() > 0 && s.last() == '\0' {
        without_trailing_nuls(s.drop_last())
    } else {
        s
    }
}

/// `s.trim_end_matches('\0')`, as an owned string.
pub fn trim_trailing_nuls(s: &str) -> (t: String)
    ensures
        t@ == without_trailing_nuls(s@),
{
    let n = s.unicode_len();
    let mut k: usize = n;
    assert(s@.subrange(0, n as int) =~= s@);
    while k > 0 && s.get_char(k - 1) == '\0'
        invariant
            n == s@.len(),
            k <= n,
            without_trailing_nuls(s@) == without_trailing_nuls(s@.subrange(0, k as int)),
        decreases k,
    {
        assert(s@.subrange(0, k as int).drop_last() =~= s@.subrange(0, k - 1));
        k = k - 1;
    }
    let kept = s.substring_char(0, k);
    String::from_str(kept)
}

} // verus!
