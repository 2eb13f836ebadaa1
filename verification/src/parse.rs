use vstd::prelude::*;

verus! {

/// Decimal digit, as a byte.
pub open spec fn is_digit(b: u8) -> bool {
    48 <= b <= 57
}

/// Numeric value of a decimal digit byte.
pub open spec fn digit_val(b: u8) -> int {
    b - 48
}

/// Every byte of `s` is a decimal digit.
pub open spec fn all_digits(s: Seq<u8>) -> bool {
    forall|i: int| 0 <= i < s.len() ==> is_digit(s[i])
}

/// The number written by a sequence of decimal digit bytes, most significant
/// first. The empty sequence counts as zero; callers rule it out where a
/// digit is required.
pub open spec fn digits_val(s: Seq<u8>) -> int
    decreases s.len(),
{
    if s.len() == 0 {
        0
    } else {
        digits_val(s.drop_last()) * 10 + digit_val(s.last())
    }
}

/// The digits of an unsigned integer literal: an optional leading `+`
/// stripped, the rest taken as written.
pub open spec fn int_body(s: Seq<u8>) -> Seq<u8> {
    if s.len() > 0 && s[0] == 43 {
        s.skip(1)
    } else {
        s
    }
}

/// Unsigned decimal integer syntax, as `str::parse` for the unsigned types
/// reads it: an optional leading `+`, then at least one digit, and a value
/// no greater than `bound`. Anything else fails.
pub open spec fn parse_uint(s: Seq<u8>, bound: int) -> Option<int> {
    let b = int_body(s);
    if b.len() > 0 && all_digits(b) && digits_val(b) <= bound {
        Some(digits_val(b))
    } else {
        None
    }
}

/// A 16-bit port number read from text.
pub open spec fn parse_port(s: Seq<u8>) -> Option<u16> {
    match parse_uint(s, u16::MAX as int) {
        Some(v) => Some(v as u16),
        None => None,
    }
}

/// A 32-bit process id read from text.
pub open spec fn parse_pid(s: Seq<u8>) -> Option<u32> {
    match parse_uint(s, u32::MAX as int) {
        Some(v) => Some(v as u32),
        None => None,
    }
}

/// Value of the digit bytes `v[from..to]`, or `None` when a non-digit
/// occurs or the value exceeds `bound`.
pub(crate) fn digits_to_value(v: &Vec<u8>, from: usize, to: usize, bound: u64) -> (r: Option<u64>)
    requires
        from <= to <= v.len(),
        bound <= u32::MAX,
    ensures
        ({
            let sub = v@.subrange(from as int, to as int);
            match r {
                Some(x) => all_digits(sub) && x == digits_val(sub) && x <= bound,
                None => !(all_digits(sub) && digits_val(sub) <= bound),
            }
        }),
{
    let ghost sub = v@.subrange(from as int, to as int);
    let mut acc: u64 = 0;
    let mut over: bool = false;
    let mut i: usize = from;
    while i < to
        invariant
            from <= i <= to <= v.len(),
            bound <= u32::MAX,
            sub == v@.subrange(from as int, to as int),
            all_digits(v@.subrange(from as int, i as int)),
            !over ==> acc == digits_val(v@.subrange(from as int, i as int)) && acc <= bound,
            over ==> digits_val(v@.subrange(from as int, i as int)) > bound,
        decreases to - i,
    {
        let b = v[i];
        if !(48 <= b && b <= 57) {
            proof {
                assert(sub[i - from] == v@[i as int]);
            }
            return None;
        }
        let d: u64 = (b - 48) as u64;
        proof {
            let pre = v@.subrange(from as int, i as int);
            let post = v@.subrange(from as int, i + 1);
            assert(post.drop_last() =~= pre);
            assert(post.last() == v@[i as int]);
            assert(digits_val(post) == digits_val(pre) * 10 + digit_val(v@[i as int]));
        }
        if !over {
            let next = acc * 10 + d;
            if next > bound {
                over = true;
            } else {
                acc = next;
            }
        }
        i += 1;
    }
    proof {
        assert(v@.subrange(from as int, i as int) == sub);
    }
    if over {
        None
    } else {
        Some(acc)
    }
}

/// Parses `v[from..to]` as an unsigned decimal integer with optional `+`
/// sign, failing on empty input, stray bytes, or a value above `bound`.
pub fn parse_unsigned(v: &Vec<u8>, from: usize, to: usize, bound: u64) -> (r: Option<u64>)
    requires
        from <= to <= v.len(),
        bound <= u32::MAX,
    ensures
        ({
            let p = parse_uint(v@.subrange(from as int, to as int), bound as int);
            match r {
                Some(x) => x <= bound && p == Some(x as int),
                None => p is None,
            }
        }),
{
    let ghost sub = v@.subrange(from as int, to as int);
    let mut start = from;
    if from < to && v[from] == 43 {
        start = from + 1;
        proof {
            assert(sub[0] == v@[from as int]);
            assert(int_body(sub) =~= v@.subrange(start as int, to as int));
        }
    } else {
        proof {
            if sub.len() > 0 {
                assert(sub[0] == v@[from as int]);
            }
            assert(int_body(sub) =~= v@.subrange(start as int, to as int));
        }
    }
    if start >= to {
        return None;
    }
    digits_to_value(v, start, to, bound)
}

/// Position of the first line feed at or after `pos`, or the end of `s`.
pub open spec fn line_end(s: Seq<u8>, pos: int) -> int
    decreases s.len() - pos when 0 <= pos <= s.len()
{
    if pos >= s.len() || s[pos] == 10 {
        pos
    } else {
        line_end(s, pos + 1)
    }
}

/// `line_end` stays within `s` and never moves backward.
pub proof fn lemma_line_end_bounds(s: Seq<u8>, pos: int)
    requires
        0 <= pos <= s.len(),
    ensures
        pos <= line_end(s, pos) <= s.len(),
    decreases s.len() - pos,
{
    if !(pos >= s.len() || s[pos] == 10) {
        lemma_line_end_bounds(s, pos + 1);
    }
}

/// Pins `line_end` down from the evidence a forward scan gathers.
pub proof fn lemma_line_end_locate(s: Seq<u8>, pos: int, e: int)
    requires
        0 <= pos <= e <= s.len(),
        forall|j: int| pos <= j < e ==> s[j] != 10,
        e == s.len() || s[e] == 10,
    ensures
        line_end(s, pos) == e,
    decreases e - pos,
{
    if pos < e {
        assert(s[pos] != 10);
        lemma_line_end_locate(s, pos + 1, e);
    }
}

/// End of the run of decimal digits starting at `pos`: the first position at
/// or after `pos` holding a non-digit, or the end of `s`.
pub open spec fn run_end(s: Seq<u8>, pos: int) -> int
    decreases s.len() - pos when 0 <= pos <= s.len()
{
    if pos >= s.len() || !is_digit(s[pos]) {
        pos
    } else {
        run_end(s, pos + 1)
    }
}

/// Pins `run_end` down from the evidence a forward scan gathers.
pub proof fn lemma_run_end_locate(s: Seq<u8>, pos: int, e: int)
    requires
        0 <= pos <= e <= s.len(),
        forall|j: int| pos <= j < e ==> is_digit(s[j]),
        e == s.len() || !is_digit(s[e]),
    ensures
        run_end(s, pos) == e,
    decreases e - pos,
{
    if pos < e {
        assert(is_digit(s[pos]));
        lemma_run_end_locate(s, pos + 1, e);
    }
}

/// A line with its trailing carriage return removed, as `str::lines` yields
/// each piece between line feeds.
pub open spec fn strip_cr(line: Seq<u8>) -> Seq<u8> {
    if line.len() > 0 && line.last() == 13 {
        line.drop_last()
    } else {
        line
    }
}

/// Whitespace, in the ASCII range: the bytes `str::trim` removes there.
pub open spec fn is_space(b: u8) -> bool {
    9 <= b <= 13 || b == 32
}

/// `s` with leading whitespace removed.
pub open spec fn trim_front(s: Seq<u8>) -> Seq<u8>
    decreases s.len(),
{
    if s.len() > 0 && is_space(s[0]) {
        trim_front(s.skip(1))
    } else {
        s
    }
}

/// `s` with trailing whitespace removed.
pub open spec fn trim_back(s: Seq<u8>) -> Seq<u8>
    decreases s.len(),
{
    if s.len() > 0 && is_space(s.last()) {
        trim_back(s.drop_last())
    } else {
        s
    }
}

/// `s` with whitespace removed at both ends.
pub open spec fn trimmed(s: Seq<u8>) -> Seq<u8> {
    trim_back(trim_front(s))
}

/// Pins `trim_front` down from the first non-space position.
pub proof fn lemma_trim_front_locate(s: Seq<u8>, lo: int)
    requires
        0 <= lo <= s.len(),
        forall|j: int| 0 <= j < lo ==> is_space(s[j]),
        lo < s.len() ==> !is_space(s[lo]),
    ensures
        trim_front(s) == s.subrange(lo, s.len() as int),
    decreases lo,
{
    if lo == 0 {
        assert(trim_front(s) =~= s.subrange(0, s.len() as int));
    } else {
        assert(is_space(s[0]));
        let t = s.skip(1);
        assert(forall|j: int| 0 <= j < lo - 1 ==> t[j] == s[j + 1] && is_space(t[j]));
        assert(lo - 1 < t.len() ==> !is_space(t[lo - 1]));
        lemma_trim_front_locate(t, lo - 1);
        assert(t.subrange(lo - 1, t.len() as int) =~= s.subrange(lo, s.len() as int));
    }
}

/// Pins `trim_back` down from the last non-space position.
pub proof fn lemma_trim_back_locate(s: Seq<u8>, hi: int)
    requires
        0 <= hi <= s.len(),
        forall|j: int| hi <= j < s.len() ==> is_space(s[j]),
        hi > 0 ==> !is_space(s[hi - 1]),
    ensures
        trim_back(s) == s.subrange(0, hi),
    decreases s.len() - hi,
{
    if hi == s.len() {
        assert(trim_back(s) =~= s.subrange(0, hi));
    } else {
        assert(is_space(s.last()));
        let t = s.drop_last();
        assert(forall|j: int| hi <= j < t.len() ==> t[j] == s[j] && is_space(t[j]));
        lemma_trim_back_locate(t, hi);
        assert(t.subrange(0, hi) =~= s.subrange(0, hi));
    }
}

/// Bounds of `v[from..to]` with whitespace trimmed at both ends, so that
/// the trimmed text is exactly `v[r.0..r.1]`.
pub(crate) fn trim_bounds(v: &Vec<u8>, from: usize, to: usize) -> (r: (usize, usize))
    requires
        from <= to <= v.len(),
    ensures
        from <= r.0 <= r.1 <= to,
        trimmed(v@.subrange(from as int, to as int)) == v@.subrange(r.0 as int, r.1 as int),
{
    let ghost sub = v@.subrange(from as int, to as int);
    let mut lo = from;
    while lo < to && ((9 <= v[lo] && v[lo] <= 13) || v[lo] == 32)
        invariant
            from <= lo <= to <= v.len(),
            forall|j: int| from <= j < lo ==> is_space(v@[j]),
        decreases to - lo,
    {
        lo += 1;
    }
    let mut hi = to;
    while hi > lo && ((9 <= v[hi - 1] && v[hi - 1] <= 13) || v[hi - 1] == 32)
        invariant
            from <= lo <= hi <= to <= v.len(),
            forall|j: int| from <= j < lo ==> is_space(v@[j]),
            lo < to ==> !is_space(v@[lo as int]),
            forall|j: int| hi <= j < to ==> is_space(v@[j]),
        decreases hi - lo,
    {
        hi -= 1;
    }
    proof {
        assert(forall|j: int| 0 <= j < lo - from ==> sub[j] == v@[from + j] && is_space(sub[j]));
        assert(lo - from < sub.len() ==> sub[lo - from] == v@[lo as int]);
        lemma_trim_front_locate(sub, lo - from);
        let t = sub.subrange(lo - from, sub.len() as int);
        assert(forall|j: int| hi - lo <= j < t.len() ==> t[j] == v@[lo + j] && is_space(t[j]));
        assert(hi - lo > 0 ==> t[hi - lo - 1] == v@[hi - 1]);
        lemma_trim_back_locate(t, hi - lo);
        assert(t.subrange(0, hi - lo) =~= v@.subrange(lo as int, hi as int));
    }
    (lo, hi)
}

} // verus!
