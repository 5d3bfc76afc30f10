use vstd::prelude::*;

use crate::text::chars_of;

verus! {

/// An ASCII letter or digit.
pub open spec fn is_alnum(c: char) -> bool {
    ('a' <= c && c <= 'z') || ('A' <= c && c <= 'Z') || ('0' <= c && c <= '9')
}

/// A character allowed between the first and the last one of a domain.
pub open spec fn is_domain_inner(c: char) -> bool {
    is_alnum(c) || c == '-' || c == '_' || c == '.'
}

/// The domain grammar: at least three characters, the first and the last a
/// letter or digit, those between letters, digits, `-`, `_` or `.`.
pub open spec fn domain_ok(s: Seq<char>) -> bool {
    &&& s.len() >= 3
    &&& is_alnum(s[0])
    &&& is_alnum(s[s.len() - 1])
    &&& forall|i: int| 1 <= i < s.len() - 1 ==> is_domain_inner(#[trigger] s[i])
}

pub open spec fn is_digit(c: char) -> bool {
    '0' <= c && c <= '9'
}

/// The number that a string of decimal digits writes.
pub open spec fn digits_value(s: Seq<char>) -> nat
    decreases s.len(),
{
    if s.len() == 0 {
        0
    } else {
        digits_value(s.drop_last()) * 10 + ((s.last() as nat) - ('0' as nat)) as nat
    }
}

/// `s` without the one leading `+` that it may have.
pub open spec fn unsigned_digits(s: Seq<char>) -> Seq<char> {
    if s.len() > 0 && s[0] == '+' {
        s.drop_first()
    } else {
        s
    }
}

/// A decimal literal of a 16-bit unsigned integer: an optional `+`, then at
/// least one digit, of value at most 65535 (leading zeros allowed).
pub open spec fn u16_literal(s: Seq<char>) -> bool {
    let d = unsigned_digits(s);
    &&& d.len() > 0
    &&& forall|i: int| 0 <= i < d.len() ==> is_digit(#[trigger] d[i])
    &&& digits_value(d) <= 65535
}

/// Two 16-bit literals joined by one hyphen; the bounds may come in either order.
pub open spec fn port_range(s: Seq<char>) -> bool {
    exists|k: int|
        0 <= k < s.len() && s[k] == '-' && u16_literal(#[trigger] s.take(k)) && u16_literal(
            s.skip(k + 1),
        )
}

/// The port grammar: one port number, or a range of two.
pub open spec fn port_ok(s: Seq<char>) -> bool {
    u16_literal(s) || port_range(s)
}

proof fn lemma_digits_value_grows(s: Seq<char>, i: int)
    requires
        0 <= i <= s.len(),
        forall|j: int| 0 <= j < s.len() ==> is_digit(#[trigger] s[j]),
    ensures
        digits_value(s.take(i)) <= digits_value(s),
    decreases s.len() - i,
{
    if i < s.len() {
        lemma_digits_value_grows(s, i + 1);
        assert(s.take(i + 1).drop_last() =~= s.take(i));
    } else {
        assert(s.take(i) =~= s);
    }
}

/// Whether `s[lo..hi]` is a decimal literal of a 16-bit unsigned integer.
pub fn is_u16_literal(s: &Vec<char>, lo: usize, hi: usize) -> (r: bool)
    requires
        lo <= hi <= s.len(),
    ensures
        r == u16_literal(s@.subrange(lo as int, hi as int)),
{
    let ghost w = s@.subrange(lo as int, hi as int);
    let mut start = lo;
    if lo < hi && s[lo] == '+' {
        start = lo + 1;
    }
    let ghost d = s@.subrange(start as int, hi as int);
    assert(d =~= unsigned_digits(w));
    if start == hi {
        assert(d.len() == 0);
        assert(!u16_literal(w));
        return false;
    }
    let mut value: u32 = 0;
    let mut i = start;
    while i < hi
        invariant
            start <= i <= hi <= s.len(),
            d == s@.subrange(start as int, hi as int),
            d == unsigned_digits(w),
            w == s@.subrange(lo as int, hi as int),
            forall|j: int| 0 <= j < i - start ==> is_digit(#[trigger] d[j]),
            value == digits_value(d.take(i - start)),
            value <= 65535,
        decreases hi - i,
    {
        let c = s[i];
        if !('0' <= c && c <= '9') {
            assert(d[i - start] == c);
            assert(!u16_literal(w));
            return false;
        }
        let ghost k = i - start;
        assert(d.take(k + 1).drop_last() =~= d.take(k));
        let next = value * 10 + (c as u32 - '0' as u32);
        if next > 65535 {
            proof {
                if forall|j: int| 0 <= j < d.len() ==> is_digit(#[trigger] d[j]) {
                    lemma_digits_value_grows(d, k + 1);
                }
            }
            assert(!u16_literal(w));
            return false;
        }
        value = next;
        i = i + 1;
    }
    assert(d.take(d.len() as int) =~= d);
    assert(u16_literal(w));
    true
}

proof fn lemma_literal_has_no_hyphen(s: Seq<char>, i: int)
    requires
        u16_literal(s),
        0 <= i < s.len(),
    ensures
        s[i] != '-',
{
    let d = unsigned_digits(s);
    if s.len() > 0 && s[0] == '+' {
        if i > 0 {
            assert(s[i] == d[i - 1]);
        }
    } else {
        assert(is_digit(d[i]));
    }
}

/// Whether `port` is one port number or a range of two, each a decimal
/// literal of a 16-bit unsigned integer.
pub fn is_valid_port(port: &str) -> (r: bool)
    ensures
        r == port_ok(port@),
{
    let s = chars_of(port);
    let n = s.len();
    if is_u16_literal(&s, 0, n) {
        assert(s@.subrange(0, n as int) =~= port@);
        return true;
    }
    assert(s@.subrange(0, n as int) =~= port@);
    let mut k: usize = 0;
    while k < n && s[k] != '-'
        invariant
            k <= n == s.len(),
            forall|j: int| 0 <= j < k ==> s@[j] != '-',
        decreases n - k,
    {
        k = k + 1;
    }
    if k == n {
        assert(!port_range(port@)) by {
            if port_range(port@) {
                let j = choose|j: int|
                    0 <= j < port@.len() && port@[j] == '-' && u16_literal(#[trigger] port@.take(j))
                        && u16_literal(port@.skip(j + 1));
                assert(s@[j] == '-');
            }
        }
        return false;
    }
    let first = is_u16_literal(&s, 0, k);
    let second = is_u16_literal(&s, k + 1, n);
    assert(s@.subrange(0, k as int) =~= port@.take(k as int));
    assert(s@.subrange(k + 1, n as int) =~= port@.skip(k + 1));
    let r = first && second;
    assert(r == port_range(port@)) by {
        if port_range(port@) {
            let j = choose|j: int|
                0 <= j < port@.len() && port@[j] == '-' && u16_literal(#[trigger] port@.take(j))
                    && u16_literal(port@.skip(j + 1));
            if j > k {
                assert(port@.take(j)[k as int] == '-');
                lemma_literal_has_no_hyphen(port@.take(j), k as int);
            }
            if j < k {
                assert(s@[j] == '-');
            }
        }
    }
    r
}

/// Whether `domain` follows the domain grammar (see `domain_ok`).
pub fn is_valid_domain(domain: &str) -> (r: bool)
    ensures
        r == domain_ok(domain@),
{
    let s = chars_of(domain);
    let n = s.len();
    if n < 3 || !is_alnum_char(s[0]) || !is_alnum_char(s[n - 1]) {
        return false;
    }
    let mut i: usize = 1;
    while i < n - 1
        invariant
            3 <= n == s.len(),
            s@ == domain@,
            1 <= i <= n - 1,
            forall|j: int| 1 <= j < i ==> is_domain_inner(#[trigger] s@[j]),
        decreases n - 1 - i,
    {
        let c = s[i];
        if !(is_alnum_char(c) || c == '-' || c == '_' || c == '.') {
            return false;
        }
        i = i + 1;
    }
    true
}

fn is_alnum_char(c: char) -> (r: bool)
    ensures
        r == is_alnum(c),
{
    ('a' <= c && c <= 'z') || ('A' <= c && c <= 'Z') || ('0' <= c && c <= '9')
}

} // verus!
