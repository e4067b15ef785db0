//! Character-sequence helpers shared by the parsing and classification code.
//!
//! All executable functions here are specified over the `Seq<char>` view of
//! Rust strings, so that the contracts of the higher-level parsers can be
//! stated directly over string views.

use vstd::prelude::*;

verus! {

pub open spec fn is_lower_alpha(c: char) -> bool {
    'a' <= c && c <= 'z'
}

pub open spec fn is_upper_alpha(c: char) -> bool {
    'A' <= c && c <= 'Z'
}

pub open spec fn is_digit_char(c: char) -> bool {
    '0' <= c && c <= '9'
}

/// ASCII upper-casing of one character; anything outside `a..z` is unchanged.
pub open spec fn to_upper_char(c: char) -> char {
    if is_lower_alpha(c) {
        (((c as u8) - 32) as char)
    } else {
        c
    }
}

/// ASCII lower-casing of one character; anything outside `A..Z` is unchanged.
pub open spec fn to_lower_char(c: char) -> char {
    if is_upper_alpha(c) {
        (((c as u8) + 32) as char)
    } else {
        c
    }
}

pub open spec fn to_upper_chars(s: Seq<char>) -> Seq<char> {
    s.map_values(|c: char| to_upper_char(c))
}

pub open spec fn to_lower_chars(s: Seq<char>) -> Seq<char> {
    s.map_values(|c: char| to_lower_char(c))
}

/// The needle `n` occurs in the haystack `h` starting at position `i`.
pub open spec fn matches_at(h: Seq<char>, n: Seq<char>, i: int) -> bool {
    0 <= i && i + n.len() <= h.len() && (forall|j: int| 0 <= j < n.len() ==> h[i + j] == n[j])
}

/// The needle `n` occurs somewhere in the haystack `h`.
pub open spec fn contains_seq(h: Seq<char>, n: Seq<char>) -> bool {
    exists|i: int| matches_at(h, n, i)
}

pub open spec fn starts_with_seq(h: Seq<char>, n: Seq<char>) -> bool {
    n.len() <= h.len() && h.subrange(0, n.len() as int) == n
}

/// Numeric value of a sequence of decimal digits, most significant first.
pub open spec fn digits_value(s: Seq<char>) -> int
    decreases s.len(),
{
    if s.len() == 0 {
        0
    } else {
        digits_value(s.drop_last()) * 10 + (s.last() as int - ('0' as int))
    }
}

pub open spec fn all_digits(s: Seq<char>) -> bool {
    forall|i: int| 0 <= i < s.len() ==> is_digit_char(#[trigger] s[i])
}

/// Collect the characters of a string slice into a vector.
pub fn str_chars(s: &str) -> (r: Vec<char>)
    ensures
        r@ == s@,
{
    let n = s.unicode_len();
    let mut r: Vec<char> = Vec::new();
    let mut i: usize = 0;
    while i < n
        invariant
            i <= n,
            n == s@.len(),
            r@ == s@.subrange(0, i as int),
        decreases n - i,
    {
        r.push(s.get_char(i));
        i = i + 1;
        assert(r@ =~= s@.subrange(0, i as int));
    }
    assert(r@ =~= s@);
    r
}

pub fn upper_char(c: char) -> (r: char)
    ensures
        r == to_upper_char(c),
{
    if 'a' <= c && c <= 'z' {
        ((c as u8) - 32) as char
    } else {
        c
    }
}

pub fn lower_char(c: char) -> (r: char)
    ensures
        r == to_lower_char(c),
{
    if 'A' <= c && c <= 'Z' {
        ((c as u8) + 32) as char
    } else {
        c
    }
}

/// ASCII-uppercase every character of a vector.
pub fn upper_chars_vec(s: &Vec<char>) -> (r: Vec<char>)
    ensures
        r@ == to_upper_chars(s@),
{
    let mut r: Vec<char> = Vec::new();
    let mut i: usize = 0;
    while i < s.len()
        invariant
            i <= s@.len(),
            r@ == to_upper_chars(s@.subrange(0, i as int)),
        decreases s@.len() - i,
    {
        r.push(upper_char(s[i]));
        i = i + 1;
        assert(r@ =~= to_upper_chars(s@.subrange(0, i as int)));
    }
    assert(r@ =~= to_upper_chars(s@));
    r
}

/// ASCII-lowercase every character of a vector.
pub fn lower_chars_vec(s: &Vec<char>) -> (r: Vec<char>)
    ensures
        r@ == to_lower_chars(s@),
{
    let mut r: Vec<char> = Vec::new();
    let mut i: usize = 0;
    while i < s.len()
        invariant
            i <= s@.len(),
            r@ == to_lower_chars(s@.subrange(0, i as int)),
        decreases s@.len() - i,
    {
        r.push(lower_char(s[i]));
        i = i + 1;
        assert(r@ =~= to_lower_chars(s@.subrange(0, i as int)));
    }
    assert(r@ =~= to_lower_chars(s@));
    r
}

/// Whether `n` occurs in `h` starting at `i`.
fn matches_at_exec(h: &Vec<char>, n: &Vec<char>, i: usize) -> (r: bool)
    requires
        i + n@.len() <= h@.len(),
    ensures
        r == matches_at(h@, n@, i as int),
{
    let hlen = h.len();
    let mut j: usize = 0;
    while j < n.len()
        invariant
            j <= n@.len(),
            i + n@.len() <= h@.len(),
            hlen == h@.len(),
            forall|k: int| 0 <= k < j ==> h@[i + k] == n@[k],
        decreases n@.len() - j,
    {
        assert(i + j < h@.len());
        if h[i + j] != n[j] {
            assert(!matches_at(h@, n@, i as int));
            return false;
        }
        j = j + 1;
    }
    true
}

/// Substring search: does `n` occur anywhere in `h`?
pub fn contains_vec(h: &Vec<char>, n: &Vec<char>) -> (r: bool)
    ensures
        r == contains_seq(h@, n@),
{
    if n.len() > h.len() {
        assert(forall|i: int| !matches_at(h@, n@, i));
        return false;
    }
    if n.len() == 0 {
        assert(matches_at(h@, n@, 0));
        return true;
    }
    let hlen = h.len();
    let last = hlen - n.len();
    let mut i: usize = 0;
    while i <= last
        invariant
            0 < n@.len() <= h@.len(),
            hlen == h@.len(),
            last == h@.len() - n@.len(),
            i <= last + 1,
            forall|k: int| 0 <= k < i ==> !matches_at(h@, n@, k),
        decreases last + 1 - i,
    {
        if matches_at_exec(h, n, i) {
            return true;
        }
        i = i + 1;
    }
    assert(forall|k: int| matches_at(h@, n@, k) ==> 0 <= k <= last);
    false
}

/// Equality of two character vectors.
pub fn chars_eq(a: &Vec<char>, b: &Vec<char>) -> (r: bool)
    ensures
        r == (a@ == b@),
{
    if a.len() != b.len() {
        assert(a@ != b@) by {
            assert(a@.len() != b@.len());
        }
        return false;
    }
    let mut i: usize = 0;
    while i < a.len()
        invariant
            a@.len() == b@.len(),
            i <= a@.len(),
            forall|k: int| 0 <= k < i ==> a@[k] == b@[k],
        decreases a@.len() - i,
    {
        if a[i] != b[i] {
            assert(a@ != b@);
            return false;
        }
        i = i + 1;
    }
    assert(a@ =~= b@);
    true
}

/// Whether `h` starts with the prefix `n`.
pub fn starts_with_vec(h: &Vec<char>, n: &Vec<char>) -> (r: bool)
    ensures
        r == starts_with_seq(h@, n@),
{
    if n.len() > h.len() {
        return false;
    }
    if matches_at_exec(h, n, 0) {
        assert(h@.subrange(0, n@.len() as int) =~= n@);
        true
    } else {
        proof {
            if h@.subrange(0, n@.len() as int) == n@ {
                assert forall|j: int| 0 <= j < n@.len() implies h@[j] == n@[j] by {
                    assert(h@.subrange(0, n@.len() as int)[j] == h@[j]);
                }
                assert(matches_at(h@, n@, 0));
            }
        }
        false
    }
}

/// Parse an unsigned decimal number; `None` when empty, not all digits,
/// or the value does not fit in `u64`.
pub fn parse_u64_chars(s: &Vec<char>) -> (r: Option<u64>)
    ensures
        match r {
            Some(v) => s@.len() > 0 && all_digits(s@) && v == digits_value(s@),
            None => s@.len() == 0 || !all_digits(s@) || digits_value(s@) > u64::MAX,
        },
{
    if s.len() == 0 {
        return None;
    }
    let mut acc: u64 = 0;
    let mut i: usize = 0;
    while i < s.len()
        invariant
            i <= s@.len(),
            all_digits(s@.subrange(0, i as int)),
            acc == digits_value(s@.subrange(0, i as int)),
        decreases s@.len() - i,
    {
        let c = s[i];
        if !('0' <= c && c <= '9') {
            assert(!all_digits(s@));
            return None;
        }
        let d: u64 = (c as u64) - ('0' as u64);
        if acc > (u64::MAX - d) / 10 {
            proof {
                assert(s@.subrange(0, (i + 1) as int).drop_last() =~= s@.subrange(0, i as int));
                assert(acc * 10 + d > u64::MAX);
                assert(digits_value(s@.subrange(0, (i + 1) as int)) > u64::MAX);
                if all_digits(s@) {
                    digits_value_prefix_le(s@, i as int + 1);
                }
            }
            return None;
        }
        acc = acc * 10 + d;
        i = i + 1;
        assert(s@.subrange(0, i as int).drop_last() =~= s@.subrange(0, i as int - 1));
    }
    assert(s@.subrange(0, s@.len() as int) =~= s@);
    Some(acc)
}

/// The value of an all-digits string is nonnegative.
proof fn digits_value_nonneg(s: Seq<char>)
    requires
        all_digits(s),
    ensures
        digits_value(s) >= 0,
    decreases s.len(),
{
    if s.len() > 0 {
        assert(all_digits(s.drop_last()));
        digits_value_nonneg(s.drop_last());
    }
}

/// The value of an all-digits string is at least the value of any of its prefixes.
proof fn digits_value_prefix_le(s: Seq<char>, i: int)
    requires
        0 <= i <= s.len(),
        all_digits(s),
    ensures
        digits_value(s.subrange(0, i)) <= digits_value(s),
    decreases s.len() - i,
{
    if i < s.len() {
        digits_value_prefix_le(s, i + 1);
        assert(s.subrange(0, i + 1).drop_last() =~= s.subrange(0, i));
        assert(all_digits(s.subrange(0, i))) by {
            assert(forall|k: int| 0 <= k < i ==> s.subrange(0, i)[k] == s[k]);
        }
        digits_value_nonneg(s.subrange(0, i));
        assert(is_digit_char(s[i]));
        assert(digits_value(s.subrange(0, i)) <= digits_value(s.subrange(0, i + 1)));
    } else {
        assert(s.subrange(0, i) =~= s);
    }
}

/// Index of the first occurrence of `c` in `s`, or `-1` when absent.
pub open spec fn spec_find(s: Seq<char>, c: char) -> int
    decreases s.len(),
{
    if s.len() == 0 {
        -1
    } else if s[0] == c {
        0
    } else {
        let r = spec_find(s.drop_first(), c);
        if r < 0 {
            -1
        } else {
            r + 1
        }
    }
}

proof fn lemma_find_at(s: Seq<char>, c: char, i: int)
    requires
        0 <= i < s.len(),
        s[i] == c,
        forall|k: int| 0 <= k < i ==> s[k] != c,
    ensures
        spec_find(s, c) == i,
    decreases i,
{
    if i > 0 {
        lemma_find_at(s.drop_first(), c, i - 1);
    }
}

proof fn lemma_find_absent(s: Seq<char>, c: char)
    requires
        forall|k: int| 0 <= k < s.len() ==> s[k] != c,
    ensures
        spec_find(s, c) == -1,
    decreases s.len(),
{
    if s.len() > 0 {
        lemma_find_absent(s.drop_first(), c);
    }
}

/// Position of the first occurrence of `c` in `s`, if any.
pub fn find_char(s: &Vec<char>, c: char) -> (r: Option<usize>)
    ensures
        match r {
            Some(i) => i < s@.len() && s@[i as int] == c && (forall|k: int|
                0 <= k < i ==> s@[k] != c) && spec_find(s@, c) == i,
            None => (forall|k: int| 0 <= k < s@.len() ==> s@[k] != c) && spec_find(s@, c) == -1,
        },
{
    let mut i: usize = 0;
    while i < s.len()
        invariant
            i <= s@.len(),
            forall|k: int| 0 <= k < i ==> s@[k] != c,
        decreases s@.len() - i,
    {
        if s[i] == c {
            proof {
                lemma_find_at(s@, c, i as int);
            }
            return Some(i);
        }
        i = i + 1;
    }
    proof {
        lemma_find_absent(s@, c);
    }
    None
}

pub open spec fn spec_is_ws(c: char) -> bool {
    c == ' ' || c == '\n' || c == '\r' || c == '\t'
}

pub fn is_ws_exec(c: char) -> (r: bool)
    ensures
        r == spec_is_ws(c),
{
    c == ' ' || c == '\n' || c == '\r' || c == '\t'
}

pub open spec fn ends_with_seq(h: Seq<char>, n: Seq<char>) -> bool {
    n.len() <= h.len() && h.subrange(h.len() - n.len(), h.len() as int) == n
}

/// Whether `h` ends with the suffix `n`.
pub fn ends_with_vec(h: &Vec<char>, n: &Vec<char>) -> (r: bool)
    ensures
        r == ends_with_seq(h@, n@),
{
    if n.len() > h.len() {
        return false;
    }
    let start = h.len() - n.len();
    if matches_at_exec(h, n, start) {
        assert(h@.subrange(h@.len() - n@.len(), h@.len() as int) =~= n@);
        true
    } else {
        proof {
            if h@.subrange(h@.len() - n@.len(), h@.len() as int) == n@ {
                assert forall|j: int| 0 <= j < n@.len() implies h@[start + j] == n@[j] by {
                    assert(h@.subrange(h@.len() - n@.len(), h@.len() as int)[j] == h@[start + j]);
                }
                assert(matches_at(h@, n@, start as int));
            }
        }
        false
    }
}

/// Index of the last occurrence of `c` in `s`, or `-1` when absent.
pub open spec fn spec_rfind(s: Seq<char>, c: char) -> int
    decreases s.len(),
{
    if s.len() == 0 {
        -1
    } else if s.last() == c {
        s.len() - 1
    } else {
        spec_rfind(s.drop_last(), c)
    }
}

proof fn lemma_rfind_at(s: Seq<char>, c: char, i: int)
    requires
        0 <= i < s.len(),
        s[i] == c,
        forall|k: int| i < k < s.len() ==> s[k] != c,
    ensures
        spec_rfind(s, c) == i,
    decreases s.len(),
{
    if i == s.len() - 1 {
    } else {
        assert(s.last() != c);
        assert(s.drop_last()[i] == c);
        lemma_rfind_at(s.drop_last(), c, i);
    }
}

proof fn lemma_rfind_absent(s: Seq<char>, c: char)
    requires
        forall|k: int| 0 <= k < s.len() ==> s[k] != c,
    ensures
        spec_rfind(s, c) == -1,
    decreases s.len(),
{
    if s.len() > 0 {
        lemma_rfind_absent(s.drop_last(), c);
    }
}

/// Position of the last occurrence of `c` in `s`, if any.
pub fn rfind_char(s: &Vec<char>, c: char) -> (r: Option<usize>)
    ensures
        match r {
            Option::Some(i) => i < s@.len() && s@[i as int] == c && spec_rfind(s@, c) == i,
            Option::None => spec_rfind(s@, c) == -1,
        },
{
    let mut i: usize = s.len();
    while i > 0
        invariant
            i <= s@.len(),
            forall|k: int| i <= k < s@.len() ==> s@[k] != c,
        decreases i,
    {
        i = i - 1;
        if s[i] == c {
            proof {
                lemma_rfind_at(s@, c, i as int);
            }
            return Option::Some(i);
        }
    }
    proof {
        lemma_rfind_absent(s@, c);
    }
    Option::None
}

pub open spec fn digit_char(d: int) -> char {
    ((('0' as u8) + d as u8) as char)
}

/// Decimal rendering of a nonnegative number, most significant digit first.
pub open spec fn dec_digits(n: int) -> Seq<char>
    decreases n,
{
    if n < 10 {
        seq![digit_char(n)]
    } else {
        dec_digits(n / 10).push(digit_char(n % 10))
    }
}

/// Render a number in decimal.
pub fn u64_to_string(n: u64) -> (r: String)
    ensures
        r@ == dec_digits(n as int),
    decreases n,
{
    if n < 10 {
        let mut s = String::new();
        push_char(&mut s, (('0' as u8) + (n as u8)) as char);
        assert(s@ =~= seq![digit_char(n as int)]);
        s
    } else {
        let mut s = u64_to_string(n / 10);
        push_char(&mut s, (('0' as u8) + ((n % 10) as u8)) as char);
        s
    }
}

/// The lower-case hex digit for a value below 16.
pub open spec fn hex_digit(d: int) -> char {
    if d < 10 {
        digit_char(d)
    } else {
        ((('a' as u8) + (d - 10) as u8) as char)
    }
}

/// Lower-case hex rendering of a byte string, two digits per byte.
pub open spec fn hex_of_bytes(s: Seq<u8>) -> Seq<char>
    decreases s.len(),
{
    if s.len() == 0 {
        Seq::empty()
    } else {
        hex_of_bytes(s.drop_last()) + seq![
            hex_digit(s.last() as int / 16),
            hex_digit(s.last() as int % 16),
        ]
    }
}

/// Render a byte string in lower-case hex.
pub fn bytes_to_hex(s: &Vec<u8>) -> (r: Vec<char>)
    ensures
        r@ == hex_of_bytes(s@),
{
    let mut r: Vec<char> = Vec::new();
    let mut i: usize = 0;
    while i < s.len()
        invariant
            i <= s@.len(),
            r@ == hex_of_bytes(s@.subrange(0, i as int)),
        decreases s@.len() - i,
    {
        let b = s[i];
        let hi = b / 16;
        let lo = b % 16;
        r.push(if hi < 10 {
            (('0' as u8) + hi) as char
        } else {
            (('a' as u8) + (hi - 10)) as char
        });
        r.push(if lo < 10 {
            (('0' as u8) + lo) as char
        } else {
            (('a' as u8) + (lo - 10)) as char
        });
        i = i + 1;
        assert(s@.subrange(0, i as int).drop_last() =~= s@.subrange(0, i as int - 1));
        assert(r@ =~= hex_of_bytes(s@.subrange(0, i as int)));
    }
    assert(s@.subrange(0, s@.len() as int) =~= s@);
    r
}

/// Relies on `String::push`: appends one character to the string.
#[verifier::external_body]
fn push_char(s: &mut String, c: char)
    ensures
        final(s)@ == old(s)@.push(c),
{
    s.push(c);
}

/// An owned copy of a string slice.
pub fn lit_string(s: &str) -> (r: String)
    ensures
        r@ == s@,
{
    let mut r = String::new();
    r.append(s);
    r
}

/// Build an owned string from a vector of characters.
pub fn chars_to_string(v: &Vec<char>) -> (r: String)
    ensures
        r@ == v@,
{
    let mut r = String::new();
    let mut i: usize = 0;
    while i < v.len()
        invariant
            i <= v@.len(),
            r@ == v@.subrange(0, i as int),
        decreases v@.len() - i,
    {
        push_char(&mut r, v[i]);
        i = i + 1;
        assert(r@ =~= v@.subrange(0, i as int));
    }
    assert(r@ =~= v@);
    r
}

/// Copy the characters of `s` in positions `from..to`.
pub fn subrange_chars(s: &Vec<char>, from: usize, to: usize) -> (r: Vec<char>)
    requires
        from <= to <= s@.len(),
    ensures
        r@ == s@.subrange(from as int, to as int),
{
    let mut r: Vec<char> = Vec::new();
    let mut i: usize = from;
    while i < to
        invariant
            from <= i <= to <= s@.len(),
            r@ == s@.subrange(from as int, i as int),
        decreases to - i,
    {
        r.push(s[i]);
        i = i + 1;
        assert(r@ =~= s@.subrange(from as int, i as int));
    }
    r
}

} // verus!
