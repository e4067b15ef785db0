//! HTTP byte-range planning for the streaming endpoints.
//!
//! A request either carries a `bytes=start-[end]` header, in which case the
//! satisfied part of the file is served as a partial response, or it carries
//! no usable range and the whole file is served.  The plan computed here pins
//! down the byte window exactly; the caller only has to seek and cap the
//! engine byte stream accordingly.

use vstd::prelude::*;

use crate::text::{
    all_digits, digits_value, find_char, parse_u64_chars, spec_find, starts_with_seq,
    starts_with_vec, str_chars, subrange_chars,
};

verus! {

/// The byte window and response class chosen for one streaming request.
/// `partial` selects a `206 Partial Content` response with a `Content-Range`
/// header; otherwise the whole file is served with `200 OK`.
pub struct RangePlan {
    pub start: u64,
    pub end: u64,
    pub partial: bool,
}

/// Value of a decimal digit string, or `d` when it is empty, non-numeric or
/// does not fit in `u64` (mirrors `parse().unwrap_or(d)`).
pub open spec fn parse_or(s: Seq<char>, d: int) -> int {
    if s.len() > 0 && all_digits(s) && digits_value(s) <= u64::MAX {
        digits_value(s)
    } else {
        d
    }
}

/// Start and end byte offsets requested by the part of the header after
/// `bytes=`, against a file of `fs` bytes: the text before the first dash is
/// the start (default 0), the text between the first and second dash is the
/// inclusive end (default and upper clamp: the last byte of the file).
pub open spec fn spec_range_for(rest: Seq<char>, fs: int) -> (int, int) {
    let d = spec_find(rest, '-');
    if d < 0 {
        (parse_or(rest, 0), fs - 1)
    } else {
        let p0 = rest.subrange(0, d);
        let tail = rest.subrange(d + 1, rest.len() as int);
        let d2 = spec_find(tail, '-');
        let p1 = if d2 < 0 {
            tail
        } else {
            tail.subrange(0, d2)
        };
        let start = parse_or(p0, 0);
        let end0 = if p1.len() == 0 {
            fs - 1
        } else {
            parse_or(p1, fs - 1)
        };
        let end = if end0 < fs - 1 {
            end0
        } else {
            fs - 1
        };
        (start, end)
    }
}

/// Whether the header carries a usable `bytes=` range against `fs` bytes:
/// it must have the prefix and request a start at or before its end.
pub open spec fn spec_range_usable(h: Option<Seq<char>>, fs: int) -> bool {
    match h {
        Option::None => false,
        Option::Some(s) => starts_with_seq(s, "bytes="@) && {
            let (start, end) = spec_range_for(s.subrange(6, s.len() as int), fs);
            start <= end
        },
    }
}

/// The byte window served: the requested window where the header is usable,
/// and the whole file otherwise.
pub open spec fn spec_plan_window(h: Option<Seq<char>>, fs: int) -> (int, int) {
    if spec_range_usable(h, fs) {
        spec_range_for(h->Some_0.subrange(6, h->Some_0.len() as int), fs)
    } else {
        (0, fs - 1)
    }
}

/// Compute the byte window for one streaming request.  A missing header, a
/// header without the `bytes=` prefix, or a range whose start lies beyond its
/// clamped end selects the whole file; otherwise the requested window is
/// served as a partial response.
pub fn plan_range(header: Option<&str>, file_size: u64) -> (r: RangePlan)
    requires
        file_size > 0,
    ensures
        r.partial == spec_range_usable(
            match header {
                Option::Some(s) => Option::Some(s@),
                Option::None => Option::None,
            },
            file_size as int,
        ),
        r.start == spec_plan_window(
            match header {
                Option::Some(s) => Option::Some(s@),
                Option::None => Option::None,
            },
            file_size as int,
        ).0,
        r.end == spec_plan_window(
            match header {
                Option::Some(s) => Option::Some(s@),
                Option::None => Option::None,
            },
            file_size as int,
        ).1,
        r.start <= r.end < file_size,
{
    let full = RangePlan { start: 0, end: file_size - 1, partial: false };
    let s = match header {
        Option::Some(s) => s,
        Option::None => {
            return full;
        },
    };
    let chars = str_chars(s);
    let prefix = str_chars("bytes=");
    proof {
        reveal_strlit("bytes=");
    }
    if !starts_with_vec(&chars, &prefix) {
        return full;
    }
    let rest = subrange_chars(&chars, 6, chars.len());
    assert(rest@ =~= s@.subrange(6, s@.len() as int));

    let (start, end) = match find_char(&rest, '-') {
        Option::None => {
            let start = match parse_u64_chars(&rest) {
                Option::Some(v) => v,
                Option::None => 0,
            };
            (start, file_size - 1)
        },
        Option::Some(d) => {
            let p0 = subrange_chars(&rest, 0, d);
            let tail = subrange_chars(&rest, d + 1, rest.len());
            assert(tail@ =~= rest@.subrange(d + 1, rest@.len() as int));
            let p1 = match find_char(&tail, '-') {
                Option::None => tail,
                Option::Some(d2) => {
                    let t = subrange_chars(&tail, 0, d2);
                    t
                },
            };
            let start = match parse_u64_chars(&p0) {
                Option::Some(v) => v,
                Option::None => 0,
            };
            let end0 = if p1.len() == 0 {
                file_size - 1
            } else {
                match parse_u64_chars(&p1) {
                    Option::Some(v) => v,
                    Option::None => file_size - 1,
                }
            };
            let end = if end0 < file_size - 1 {
                end0
            } else {
                file_size - 1
            };
            (start, end)
        },
    };
    if start > end {
        return full;
    }
    RangePlan { start, end, partial: true }
}

/// Number of bytes a plan serves.
pub fn plan_len(r: &RangePlan) -> (n: u64)
    requires
        r.start <= r.end < u64::MAX,
    ensures
        n == r.end - r.start + 1,
{
    r.end - r.start + 1
}

/// Serve a byte window out of in-memory file content: exactly the bytes
/// `start..=end` of the content, in order.  This is the reference model of
/// what the seek-then-cap pipeline does to the engine byte stream.
pub fn read_range(content: &Vec<u8>, start: u64, end: u64) -> (r: Vec<u8>)
    requires
        start <= end < content@.len(),
    ensures
        r@ == content@.subrange(start as int, end as int + 1),
        r@.len() == end - start + 1,
{
    let clen = content.len();
    assert(end < clen);
    let s = start as usize;
    let e = end as usize;
    let mut r: Vec<u8> = Vec::new();
    let mut i: usize = s;
    while i <= e
        invariant
            s <= i <= e + 1,
            e < content@.len(),
            clen == content@.len(),
            s == start as int,
            e == end as int,
            r@ == content@.subrange(s as int, i as int),
        decreases e + 1 - i,
    {
        r.push(content[i]);
        i = i + 1;
        assert(r@ =~= content@.subrange(s as int, i as int));
    }
    r
}

/// Range correctness at the model level: the slice served for a valid
/// in-bounds window `start..=end` has exactly `end - start + 1` bytes, and
/// byte `k` of the slice is byte `start + k` of the file.
pub proof fn lemma_range_slice_correct(content: Seq<u8>, start: int, end: int)
    requires
        0 <= start <= end < content.len(),
    ensures
        content.subrange(start, end + 1).len() == end - start + 1,
        forall|k: int|
            0 <= k <= end - start ==> #[trigger] content.subrange(start, end + 1)[k]
                == content[start + k],
{
}

} // verus!
