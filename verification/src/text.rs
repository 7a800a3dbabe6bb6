//! Byte-level text helpers for modem responses: white-space trimming,
//! prefix and substring tests, splitting at commas and unsigned decimal
//! parsing. Lines are handled as the UTF-8 bytes of the text.
use vstd::prelude::*;

verus! {

/// The ASCII characters that `char::is_whitespace` accepts.
pub open spec fn is_ascii_ws(b: u8) -> bool {
    b == 0x09 || b == 0x0A || b == 0x0B || b == 0x0C || b == 0x0D || b == 0x20
}

/// Whether three bytes are the UTF-8 encoding of a white-space character of
/// the U+1680..U+3000 range.
pub open spec fn is_ws3(b0: u8, b1: u8, b2: u8) -> bool {
    ||| (b0 == 0xE1 && b1 == 0x9A && b2 == 0x80)
    ||| (b0 == 0xE2 && b1 == 0x80 && ((0x80 <= b2 && b2 <= 0x8A) || b2 == 0xA8 || b2 == 0xA9
        || b2 == 0xAF))
    ||| (b0 == 0xE2 && b1 == 0x81 && b2 == 0x9F)
    ||| (b0 == 0xE3 && b1 == 0x80 && b2 == 0x80)
}

/// Byte length of the white-space character that `s` starts with, 0 if it
/// starts with none.
pub open spec fn ws_prefix_len(s: Seq<u8>) -> int {
    if s.len() >= 1 && is_ascii_ws(s[0]) {
        1
    } else if s.len() >= 2 && s[0] == 0xC2 && (s[1] == 0x85 || s[1] == 0xA0) {
        2
    } else if s.len() >= 3 && is_ws3(s[0], s[1], s[2]) {
        3
    } else {
        0
    }
}

/// Byte length of the white-space character that `s` ends with, 0 if it
/// ends with none.
pub open spec fn ws_suffix_len(s: Seq<u8>) -> int {
    let n = s.len() as int;
    if n >= 1 && is_ascii_ws(s[n - 1]) {
        1
    } else if n >= 2 && s[n - 2] == 0xC2 && (s[n - 1] == 0x85 || s[n - 1] == 0xA0) {
        2
    } else if n >= 3 && is_ws3(s[n - 3], s[n - 2], s[n - 1]) {
        3
    } else {
        0
    }
}

/// `s` without its leading white space.
pub open spec fn trim_start(s: Seq<u8>) -> Seq<u8>
    decreases s.len(),
{
    if ws_prefix_len(s) == 0 {
        s
    } else {
        trim_start(s.skip(ws_prefix_len(s)))
    }
}

/// `s` without its trailing white space.
pub open spec fn trim_end(s: Seq<u8>) -> Seq<u8>
    decreases s.len(),
{
    if ws_suffix_len(s) == 0 {
        s
    } else {
        trim_end(s.take(s.len() - ws_suffix_len(s)))
    }
}

/// `s` without leading and trailing white space (what `str::trim` gives).
pub open spec fn trim(s: Seq<u8>) -> Seq<u8> {
    trim_end(trim_start(s))
}

/// Whether `s` begins with `p`.
pub open spec fn has_prefix(s: Seq<u8>, p: Seq<u8>) -> bool {
    p.len() <= s.len() && s.take(p.len() as int) == p
}

/// Whether `needle` occurs in `hay` starting at index `i`.
pub open spec fn occurs_at(hay: Seq<u8>, needle: Seq<u8>, i: int) -> bool {
    0 <= i && i + needle.len() <= hay.len() && hay.subrange(i, i + needle.len()) == needle
}

/// Whether `needle` occurs anywhere in `hay`.
pub open spec fn has_substring(hay: Seq<u8>, needle: Seq<u8>) -> bool {
    exists|i: int| occurs_at(hay, needle, i)
}

/// Whether `s` holds the byte `b`.
pub open spec fn holds_byte(s: Seq<u8>, b: u8) -> bool {
    exists|i: int| 0 <= i < s.len() && s[i] == b
}

/// Index of the first `b` in `s`, if any.
pub open spec fn first_index(s: Seq<u8>, b: u8) -> Option<int> {
    if holds_byte(s, b) {
        Some(choose|i: int| 0 <= i < s.len() && s[i] == b && forall|j: int| 0 <= j < i ==> s[j] != b)
    } else {
        None
    }
}

/// The number of commas in `s`.
pub open spec fn comma_count(s: Seq<u8>) -> nat
    decreases s.len(),
{
    if s.len() == 0 {
        0
    } else {
        comma_count(s.drop_last()) + if s.last() == 0x2C { 1nat } else { 0nat }
    }
}

pub open spec fn is_digit(b: u8) -> bool {
    0x30 <= b && b <= 0x39
}

pub open spec fn all_digits(s: Seq<u8>) -> bool {
    forall|i: int| 0 <= i < s.len() ==> #[trigger] is_digit(s[i])
}

/// The number a string of decimal digits spells.
pub open spec fn decimal_value(s: Seq<u8>) -> int
    decreases s.len(),
{
    if s.len() == 0 {
        0
    } else {
        decimal_value(s.drop_last()) * 10 + (s.last() - 0x30)
    }
}

/// What `str::parse` of an unsigned integer type whose maximum is `max`
/// gives: an optional `+`, then one or more decimal digits, with a value
/// not above `max`.
pub open spec fn parse_unsigned(s: Seq<u8>, max: int) -> Option<int> {
    let d = if s.len() > 0 && s[0] == 0x2B { s.drop_first() } else { s };
    if d.len() == 0 || !all_digits(d) || decimal_value(d) > max {
        None
    } else {
        Some(decimal_value(d))
    }
}

fn is_ascii_ws_exec(b: u8) -> (r: bool)
    ensures
        r == is_ascii_ws(b),
{
    b == 0x09 || b == 0x0A || b == 0x0B || b == 0x0C || b == 0x0D || b == 0x20
}

fn is_ws3_exec(b0: u8, b1: u8, b2: u8) -> (r: bool)
    ensures
        r == is_ws3(b0, b1, b2),
{
    (b0 == 0xE1 && b1 == 0x9A && b2 == 0x80) || (b0 == 0xE2 && b1 == 0x80 && ((0x80 <= b2 && b2
        <= 0x8A) || b2 == 0xA8 || b2 == 0xA9 || b2 == 0xAF)) || (b0 == 0xE2 && b1 == 0x81 && b2
        == 0x9F) || (b0 == 0xE3 && b1 == 0x80 && b2 == 0x80)
}

/// Byte length of the white-space character at `s[lo..hi]`'s front.
fn ws_prefix_len_exec(s: &[u8], lo: usize, hi: usize) -> (k: usize)
    requires
        lo <= hi <= s@.len(),
    ensures
        k == ws_prefix_len(s@.subrange(lo as int, hi as int)),
{
    let n = hi - lo;
    if n >= 1 && is_ascii_ws_exec(s[lo]) {
        1
    } else if n >= 2 && s[lo] == 0xC2 && (s[lo + 1] == 0x85 || s[lo + 1] == 0xA0) {
        2
    } else if n >= 3 && is_ws3_exec(s[lo], s[lo + 1], s[lo + 2]) {
        3
    } else {
        0
    }
}

/// Byte length of the white-space character at `s[lo..hi]`'s end.
fn ws_suffix_len_exec(s: &[u8], lo: usize, hi: usize) -> (k: usize)
    requires
        lo <= hi <= s@.len(),
    ensures
        k == ws_suffix_len(s@.subrange(lo as int, hi as int)),
{
    let n = hi - lo;
    if n >= 1 && is_ascii_ws_exec(s[hi - 1]) {
        1
    } else if n >= 2 && s[hi - 2] == 0xC2 && (s[hi - 1] == 0x85 || s[hi - 1] == 0xA0) {
        2
    } else if n >= 3 && is_ws3_exec(s[hi - 3], s[hi - 2], s[hi - 1]) {
        3
    } else {
        0
    }
}

/// Strip leading and trailing white space, as `str::trim` does.
pub fn trim_bytes(s: &[u8]) -> (r: &[u8])
    ensures
        r@ == trim(s@),
{
    let mut lo: usize = 0;
    let hi: usize = s.len();
    assert(s@.subrange(0, hi as int) =~= s@);
    let mut k = ws_prefix_len_exec(s, lo, hi);
    while k != 0
        invariant
            lo <= hi == s@.len(),
            k == ws_prefix_len(s@.subrange(lo as int, hi as int)),
            k <= hi - lo,
            trim_start(s@) == trim_start(s@.subrange(lo as int, hi as int)),
        decreases hi - lo,
    {
        proof {
            let t = s@.subrange(lo as int, hi as int);
            assert(t.skip(k as int) =~= s@.subrange(lo + k, hi as int));
        }
        lo = lo + k;
        k = ws_prefix_len_exec(s, lo, hi);
    }
    let ghost ts = s@.subrange(lo as int, hi as int);
    assert(trim_start(ts) == ts);
    let mut hi2: usize = hi;
    let mut k2 = ws_suffix_len_exec(s, lo, hi2);
    while k2 != 0
        invariant
            lo <= hi2 <= hi == s@.len(),
            k2 == ws_suffix_len(s@.subrange(lo as int, hi2 as int)),
            k2 <= hi2 - lo,
            trim_start(s@) == ts,
            ts == s@.subrange(lo as int, hi as int),
            trim_end(ts) == trim_end(s@.subrange(lo as int, hi2 as int)),
        decreases hi2 - lo,
    {
        proof {
            let t = s@.subrange(lo as int, hi2 as int);
            assert(t.take(t.len() - k2) =~= s@.subrange(lo as int, hi2 - k2));
        }
        hi2 = hi2 - k2;
        k2 = ws_suffix_len_exec(s, lo, hi2);
    }
    let r = vstd::slice::slice_subrange(s, lo, hi2);
    assert(trim_end(r@) == r@);
    r
}

/// Whether `s` begins with `p`.
pub fn starts_with(s: &[u8], p: &[u8]) -> (r: bool)
    ensures
        r == has_prefix(s@, p@),
{
    if p.len() > s.len() {
        return false;
    }
    let mut i: usize = 0;
    while i < p.len()
        invariant
            i <= p@.len() <= s@.len(),
            forall|k: int| 0 <= k < i ==> s@[k] == p@[k],
        decreases p@.len() - i,
    {
        if s[i] != p[i] {
            assert(s@.take(p@.len() as int)[i as int] != p@[i as int]);
            return false;
        }
        i += 1;
    }
    assert(s@.take(p@.len() as int) =~= p@);
    true
}

/// Whether `s` equals `p` byte for byte.
pub fn bytes_eq(s: &[u8], p: &[u8]) -> (r: bool)
    ensures
        r == (s@ == p@),
{
    if s.len() != p.len() {
        return false;
    }
    let r = starts_with(s, p);
    assert(s@.take(p@.len() as int) =~= s@);
    r
}

/// Whether `needle` occurs at index `i` of `hay`.
fn occurs_at_exec(hay: &[u8], needle: &[u8], i: usize) -> (r: bool)
    requires
        i + needle@.len() <= hay@.len(),
    ensures
        r == occurs_at(hay@, needle@, i as int),
{
    let hl = hay.len();
    let mut k: usize = 0;
    while k < needle.len()
        invariant
            k <= needle@.len(),
            i + needle@.len() <= hay@.len(),
            hl == hay@.len(),
            forall|j: int| 0 <= j < k ==> hay@[i + j] == needle@[j],
        decreases needle@.len() - k,
    {
        if hay[i + k] != needle[k] {
            assert(hay@.subrange(i as int, i + needle@.len())[k as int] != needle@[k as int]);
            return false;
        }
        k += 1;
    }
    assert(hay@.subrange(i as int, i + needle@.len()) =~= needle@);
    true
}

/// Whether `needle` occurs anywhere in `hay`.
pub fn contains(hay: &[u8], needle: &[u8]) -> (r: bool)
    ensures
        r == has_substring(hay@, needle@),
{
    if needle.len() == 0 {
        assert(hay@.subrange(0, 0) =~= needle@);
        assert(occurs_at(hay@, needle@, 0));
        return true;
    }
    if needle.len() > hay.len() {
        assert forall|j: int| !occurs_at(hay@, needle@, j) by {}
        return false;
    }
    let mut i: usize = 0;
    while needle.len() <= hay.len() - i
        invariant
            i <= hay@.len(),
            needle@.len() >= 1,
            forall|j: int| 0 <= j < i ==> !occurs_at(hay@, needle@, j),
        decreases hay@.len() - i,
    {
        if occurs_at_exec(hay, needle, i) {
            return true;
        }
        i += 1;
    }
    assert forall|j: int| !occurs_at(hay@, needle@, j) by {}
    false
}

/// Index of the first byte `b` in `s`, if any.
pub fn find_byte(s: &[u8], b: u8) -> (r: Option<usize>)
    ensures
        r matches Some(i) ==> i < s@.len() && s@[i as int] == b && forall|j: int| 0 <= j < i ==> s@[j] != b,
        r is None ==> !holds_byte(s@, b),
        r matches Some(i) ==> first_index(s@, b) == Some(i as int),
        r is None ==> first_index(s@, b) is None,
{
    let mut i: usize = 0;
    while i < s.len()
        invariant
            i <= s@.len(),
            forall|j: int| 0 <= j < i ==> s@[j] != b,
        decreases s@.len() - i,
    {
        if s[i] == b {
            proof {
                let c = choose|k: int| 0 <= k < s@.len() && s@[k] == b && forall|j: int| 0 <= j < k ==> s@[j] != b;
                assert(c == i);
            }
            return Some(i);
        }
        i += 1;
    }
    None
}

/// Number of commas in `s`.
pub fn count_commas(s: &[u8]) -> (n: usize)
    ensures
        n == comma_count(s@),
{
    let mut n: usize = 0;
    let mut i: usize = 0;
    while i < s.len()
        invariant
            i <= s@.len(),
            n == comma_count(s@.take(i as int)),
            n <= i,
        decreases s@.len() - i,
    {
        assert(s@.take(i + 1).drop_last() =~= s@.take(i as int));
        if s[i] == 0x2C {
            n += 1;
        }
        i += 1;
    }
    assert(s@.take(i as int) =~= s@);
    n
}

proof fn lemma_decimal_grows(s: Seq<u8>, k: int)
    requires
        all_digits(s),
        0 <= k <= s.len(),
    ensures
        decimal_value(s.take(k)) <= decimal_value(s),
        0 <= decimal_value(s.take(k)),
    decreases s.len(),
{
    if s.len() > 0 {
        let d = s.drop_last();
        assert(is_digit(s[s.len() - 1]));
        assert(all_digits(d)) by {
            assert forall|i: int| 0 <= i < d.len() implies #[trigger] is_digit(d[i]) by {
                assert(d[i] == s[i]);
            }
        }
        if k == s.len() {
            assert(s.take(k) =~= s);
            lemma_decimal_grows(d, 0);
            assert(d.take(0) =~= Seq::<u8>::empty());
        } else {
            assert(d.take(k) =~= s.take(k));
            lemma_decimal_grows(d, k);
        }
    } else {
        assert(s.take(k) =~= s);
    }
}

/// Parse an unsigned decimal number no greater than `max`, as `str::parse`
/// does for the unsigned integer type whose maximum is `max`.
pub fn parse_unsigned_bytes(s: &[u8], max: u32) -> (r: Option<u32>)
    ensures
        r matches Some(v) ==> parse_unsigned(s@, max as int) == Some(v as int),
        r is None ==> parse_unsigned(s@, max as int) is None,
{
    let start: usize = if s.len() > 0 && s[0] == 0x2B { 1 } else { 0 };
    let ghost d = if s@.len() > 0 && s@[0] == 0x2B { s@.drop_first() } else { s@ };
    assert(d =~= s@.skip(start as int));
    if start == s.len() {
        return None;
    }
    let mut v: u32 = 0;
    let mut i: usize = start;
    while i < s.len()
        invariant
            start <= i <= s@.len(),
            d == s@.skip(start as int),
            d == (if s@.len() > 0 && s@[0] == 0x2B { s@.drop_first() } else { s@ }),
            all_digits(d.take(i - start)),
            v == decimal_value(d.take(i - start)),
            v <= max,
        decreases s@.len() - i,
    {
        let c = s[i];
        let ghost p = d.take(i - start);
        let ghost q = d.take(i - start + 1);
        assert(q.drop_last() =~= p);
        assert(q.last() == c);
        if c < 0x30 || c > 0x39 {
            assert(!is_digit(d[i - start]));
            assert(!all_digits(d));
            return None;
        }
        assert(all_digits(q)) by {
            assert forall|k: int| 0 <= k < q.len() implies #[trigger] is_digit(q[k]) by {
                if k < p.len() {
                    assert(q[k] == p[k]);
                }
            }
        }
        let digit: u32 = (c - 0x30) as u32;
        assert(decimal_value(q) == v * 10 + digit);
        if digit > max || v > (max - digit) / 10 {
            proof {
                if digit <= max {
                    assert(v * 10 + digit > max) by (nonlinear_arith)
                        requires
                            v > (max - digit) / 10,
                            digit <= max,
                    ;
                }
                if all_digits(d) {
                    lemma_decimal_grows(d, i - start + 1);
                }
            }
            return None;
        }
        assert(v * 10 + digit <= max) by (nonlinear_arith)
            requires
                v <= (max - digit) / 10,
                digit <= max,
        ;
        v = v * 10 + digit;
        i += 1;
    }
    assert(d.take(i - start) =~= d);
    Some(v)
}

} // verus!
