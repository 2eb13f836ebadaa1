use vstd::prelude::*;

use crate::parse::{
    all_digits, digit_val, digits_val, is_digit, line_end, lemma_line_end_locate,
    lemma_run_end_locate, run_end, strip_cr, digits_to_value,
};

verus! {

/// Port History Store line format.
///
/// The store is a small text file holding one previous assignment as the
/// single line `export <KEY>=<PORT>`. Reading scans the whole text line by
/// line for the first occurrence of `<KEY>` followed by `=` and a digit run
/// anywhere in a line (substring match, exactly as the pattern
/// `<KEY>=(\d+)` would match), and returns the first such run that parses
/// as a 16-bit value. Writing renders the single line; persisting it
/// replaces the whole store, so at most one record exists at a time. This
/// module owns the format only; reading and writing the file itself is the
/// caller's concern.

/// The bytes of the fixed line prefix `export ` (with its trailing space).
pub open spec fn export_prefix() -> Seq<u8> {
    seq![101u8, 120u8, 112u8, 111u8, 114u8, 116u8, 32u8]
}

/// The record `key` followed by `=` occurs at position `i` of `line`, with
/// at least one digit after the `=`.
pub open spec fn full_match_at(line: Seq<u8>, key: Seq<u8>, i: int) -> bool {
    &&& 0 <= i
    &&& i + key.len() + 2 <= line.len()
    &&& line.subrange(i, i + key.len()) == key
    &&& line[i + key.len()] == 61
    &&& is_digit(line[i + key.len() + 1])
}

/// Position of the first full match at or after `i`, scanning left to right.
pub open spec fn first_match_from(line: Seq<u8>, key: Seq<u8>, i: int) -> Option<int>
    decreases line.len() - i when 0 <= i
{
    if i + key.len() + 2 > line.len() {
        None
    } else if full_match_at(line, key, i) {
        Some(i)
    } else {
        first_match_from(line, key, i + 1)
    }
}

/// The port a single line yields for `key`: the digit run captured by the
/// first match, if that run's value fits in 16 bits.
pub open spec fn line_port(line: Seq<u8>, key: Seq<u8>) -> Option<u16> {
    match first_match_from(line, key, 0) {
        None => None,
        Some(i) => {
            let start = i + key.len() + 1;
            let digits = line.subrange(start, run_end(line, start));
            if digits_val(digits) <= u16::MAX {
                Some(digits_val(digits) as u16)
            } else {
                None
            }
        },
    }
}

/// The port the store text yields for `key` from the line starting at
/// `pos` onward: the first line whose match parses wins; a line whose
/// match does not parse is passed over.
pub open spec fn stored_port_from(s: Seq<u8>, key: Seq<u8>, pos: int) -> Option<u16>
    decreases s.len() - pos when 0 <= pos via stored_port_from_decreases
{
    if pos >= s.len() {
        None
    } else {
        let e = line_end(s, pos);
        match line_port(strip_cr(s.subrange(pos, e)), key) {
            Some(p) => Some(p),
            None => if e >= s.len() {
                None
            } else {
                stored_port_from(s, key, e + 1)
            },
        }
    }
}

#[via_fn]
proof fn stored_port_from_decreases(s: Seq<u8>, key: Seq<u8>, pos: int) {
    if 0 <= pos < s.len() {
        crate::parse::lemma_line_end_bounds(s, pos);
    }
}

/// The previous assignment recorded for `key` in the store text, if any.
pub open spec fn stored_port(s: Seq<u8>, key: Seq<u8>) -> Option<u16> {
    stored_port_from(s, key, 0)
}

/// The decimal digits of `n`, most significant first, without sign or
/// leading zeros (a single `0` for zero).
pub open spec fn dec_digits(n: int) -> Seq<u8>
    decreases n when n >= 0
{
    if n < 10 {
        seq![(48 + n) as u8]
    } else {
        dec_digits(n / 10).push((48 + n % 10) as u8)
    }
}

/// The rendered record line for one assignment: `export <key>=<port>`.
pub open spec fn render_spec(key: Seq<u8>, port: u16) -> Seq<u8> {
    export_prefix() + key + seq![61u8] + dec_digits(port as int)
}

/// The digits of `n` are digits, at least one, and write `n` itself.
pub proof fn lemma_dec_digits_props(n: int)
    requires
        n >= 0,
    ensures
        all_digits(dec_digits(n)),
        dec_digits(n).len() >= 1,
        digits_val(dec_digits(n)) == n,
    decreases n,
{
    if n < 10 {
        let s = seq![(48 + n) as u8];
        assert(s.drop_last() =~= Seq::<u8>::empty());
        assert(digits_val(Seq::<u8>::empty()) == 0);
        assert(s.last() == (48 + n) as u8);
        assert(digits_val(s) == digits_val(s.drop_last()) * 10 + digit_val(s.last()));
        assert(digits_val(s) == n);
        assert(all_digits(s));
    } else {
        vstd::arithmetic::div_mod::lemma_fundamental_div_mod(n, 10);
        vstd::arithmetic::div_mod::lemma_mod_bound(n, 10);
        let q = n / 10;
        assert(n == 10 * q + n % 10);
        assert(0 <= n % 10 < 10);
        assert(0 <= q < n);
        lemma_dec_digits_props(q);
        let p = dec_digits(q);
        let x = (48 + n % 10) as u8;
        let s = dec_digits(n);
        assert(s == p.push(x));
        assert(s.drop_last() =~= p);
        assert(s.last() == x);
        assert(digit_val(x) == n % 10);
        assert(digits_val(s) == digits_val(p) * 10 + digit_val(x));
        assert forall|i: int| 0 <= i < s.len() implies is_digit(s[i]) by {
            if i < p.len() {
                assert(s[i] == p[i]);
            } else {
                assert(s[i] == x);
            }
        }
    }
}

/// The fixed prefix holds no `=`, no line feed, and no carriage return.
proof fn lemma_export_prefix_clean()
    ensures
        export_prefix().len() == 7,
        forall|i: int|
            0 <= i < 7 ==> #[trigger] export_prefix()[i] != 61 && export_prefix()[i] != 10
                && export_prefix()[i] != 13,
{
    let p = export_prefix();
    assert forall|i: int|
        0 <= i < 7 implies #[trigger] p[i] != 61 && p[i] != 10 && p[i] != 13 by {
        if i == 0 {
            assert(p[0] == 101);
        } else if i == 1 {
            assert(p[1] == 120);
        } else if i == 2 {
            assert(p[2] == 112);
        } else if i == 3 {
            assert(p[3] == 111);
        } else if i == 4 {
            assert(p[4] == 114);
        } else if i == 5 {
            assert(p[5] == 116);
        } else {
            assert(p[6] == 32);
        }
    }
}

/// Where each byte of a rendered record line comes from.
proof fn lemma_render_regions(key: Seq<u8>, port: u16)
    ensures
        ({
            let c = render_spec(key, port);
            let dd = dec_digits(port as int);
            &&& c.len() == 8 + key.len() + dd.len()
            &&& (forall|t: int| 0 <= t < 7 ==> #[trigger] c[t] == export_prefix()[t])
            &&& (forall|t: int| 0 <= t < key.len() ==> #[trigger] c[7 + t] == key[t])
            &&& c[7 + key.len() as int] == 61
            &&& (forall|t: int| 0 <= t < dd.len() ==> #[trigger] c[8 + key.len() + t] == dd[t])
        }),
{
    let pfx = export_prefix();
    let dd = dec_digits(port as int);
    let a = pfx + key;
    let b = a + seq![61u8];
    let c = render_spec(key, port);
    lemma_export_prefix_clean();
    assert(c == b + dd);
    assert forall|t: int| 0 <= t < 7 implies #[trigger] c[t] == pfx[t] by {
        assert(c[t] == b[t]);
        assert(b[t] == a[t]);
        assert(a[t] == pfx[t]);
    }
    assert forall|t: int| 0 <= t < key.len() implies #[trigger] c[7 + t] == key[t] by {
        assert(c[7 + t] == b[7 + t]);
        assert(b[7 + t] == a[7 + t]);
        assert(a[7 + t] == key[t]);
    }
    assert(c[7 + key.len() as int] == b[7 + key.len() as int]);
    assert(b[7 + key.len() as int] == seq![61u8][0int]);
    assert forall|t: int| 0 <= t < dd.len() implies #[trigger] c[8 + key.len() + t] == dd[t] by {
        assert(c[8 + key.len() + t] == dd[t]);
    }
}

/// A copy of `key` that starts inside the fixed prefix would force the
/// whole key to repeat bytes of the prefix, so such a key can hold no `=`.
proof fn lemma_early_key_no_eq(c: Seq<u8>, key: Seq<u8>, i: int, j: int)
    requires
        c.len() >= 7 + key.len(),
        forall|t: int| 0 <= t < 7 ==> #[trigger] c[t] == export_prefix()[t],
        forall|t: int| 0 <= t < key.len() ==> #[trigger] c[7 + t] == key[t],
        0 <= i < 7,
        forall|t: int| 0 <= t < key.len() ==> #[trigger] c[i + t] == key[t],
        0 <= j < key.len(),
    ensures
        key[j] != 61,
    decreases j,
{
    lemma_export_prefix_clean();
    assert(c[i + j] == key[j]);
    if i + j < 7 {
        assert(c[i + j] == export_prefix()[i + j]);
    } else {
        assert(c[7 + (i + j - 7)] == key[i + j - 7]);
        lemma_early_key_no_eq(c, key, i, i + j - 7);
    }
}

/// No full match of `key` can start inside the fixed prefix of its own
/// rendered record line.
proof fn lemma_no_match_before_key(key: Seq<u8>, port: u16, i: int)
    requires
        0 <= i < 7,
    ensures
        !full_match_at(render_spec(key, port), key, i),
{
    let c = render_spec(key, port);
    let dd = dec_digits(port as int);
    let klen = key.len() as int;
    lemma_render_regions(key, port);
    lemma_export_prefix_clean();
    lemma_dec_digits_props(port as int);
    if full_match_at(c, key, i) {
        assert forall|t: int| 0 <= t < key.len() implies #[trigger] c[i + t] == key[t] by {
            assert(c.subrange(i, i + klen)[t] == c[i + t]);
        }
        let p = i + klen;
        assert(c[p] == 61);
        if p < 7 {
            assert(c[p] == export_prefix()[p]);
        } else {
            assert(p < 7 + klen);
            assert(c[7 + (p - 7)] == key[p - 7]);
            lemma_early_key_no_eq(c, key, i, p - 7);
        }
    }
}

/// The scan from `t` onward reaches the match at the start of the key
/// region, there being none earlier.
proof fn lemma_first_match_reaches(c: Seq<u8>, key: Seq<u8>, t: int)
    requires
        0 <= t <= 7,
        7 + key.len() + 2 <= c.len(),
        full_match_at(c, key, 7),
        forall|i: int| t <= i < 7 ==> !full_match_at(c, key, i),
    ensures
        first_match_from(c, key, t) == Some(7int),
    decreases 7 - t,
{
    if t < 7 {
        assert(!full_match_at(c, key, t));
        lemma_first_match_reaches(c, key, t + 1);
    }
}

/// Round trip: reading a key's rendered record back under the same key
/// yields the very port that was written, for every key that fits on one
/// line (no line feed byte).
pub proof fn lemma_store_round_trip(key: Seq<u8>, port: u16)
    requires
        forall|i: int| 0 <= i < key.len() ==> key[i] != 10,
    ensures
        stored_port(render_spec(key, port), key) == Some(port),
{
    let c = render_spec(key, port);
    let dd = dec_digits(port as int);
    let klen = key.len() as int;
    lemma_render_regions(key, port);
    lemma_dec_digits_props(port as int);
    lemma_export_prefix_clean();
    assert forall|j: int| 0 <= j < c.len() implies c[j] != 10 by {
        if j < 7 {
            assert(c[j] == export_prefix()[j]);
        } else if j < 7 + klen {
            assert(c[7 + (j - 7)] == key[j - 7]);
        } else if j == 7 + klen {
        } else {
            assert(c[8 + klen + (j - 8 - klen)] == dd[j - 8 - klen]);
            assert(is_digit(dd[j - 8 - klen]));
        }
    }
    crate::parse::lemma_line_end_locate(c, 0, c.len() as int);
    assert(c.subrange(7, 7 + klen) =~= key);
    assert(c[8 + klen + 0] == dd[0]);
    assert(is_digit(c[7 + klen + 1]));
    assert(full_match_at(c, key, 7));
    assert forall|i: int| 0 <= i < 7 implies !full_match_at(c, key, i) by {
        lemma_no_match_before_key(key, port, i);
    }
    lemma_first_match_reaches(c, key, 0);
    assert forall|t: int| 8 + klen <= t < c.len() implies is_digit(c[t]) by {
        assert(c[8 + klen + (t - 8 - klen)] == dd[t - 8 - klen]);
        assert(is_digit(dd[t - 8 - klen]));
    }
    crate::parse::lemma_run_end_locate(c, 8 + klen, c.len() as int);
    assert(c.subrange(8 + klen, c.len() as int) =~= dd);
    assert(line_port(c, key) == Some(port));
    assert(c.subrange(0, c.len() as int) =~= c);
    assert(c[8 + klen + (dd.len() - 1)] == dd[dd.len() - 1]);
    assert(c.last() == dd.last());
    assert(is_digit(c.last()));
    assert(strip_cr(c) == c);
    assert(stored_port_from(c, key, 0) == Some(port));
}

/// `key` followed by `=` occurs at `i`, compared byte by byte.
fn bytes_eq_at(v: &Vec<u8>, key: &Vec<u8>, i: usize) -> (r: bool)
    requires
        i + key.len() <= v.len(),
    ensures
        r == (v@.subrange(i as int, i + key@.len()) == key@),
{
    let klen = key.len();
    let mut j: usize = 0;
    while j < klen
        invariant
            j <= klen == key.len(),
            i + klen <= v.len(),
            forall|t: int| 0 <= t < j ==> v@[i + t] == key@[t],
        decreases klen - j,
    {
        if v[i + j] != key[j] {
            proof {
                assert(v@.subrange(i as int, i + key@.len())[j as int] == v@[i + j]);
            }
            return false;
        }
        j += 1;
    }
    proof {
        assert(v@.subrange(i as int, i + key@.len()) =~= key@);
    }
    true
}

/// The port one line of the store yields for `key`, scanning
/// `v[start..end]` as the line.
fn line_port_exec(v: &Vec<u8>, key: &Vec<u8>, start: usize, end: usize) -> (r: Option<u16>)
    requires
        start <= end <= v.len(),
    ensures
        r == line_port(v@.subrange(start as int, end as int), key@),
{
    let ghost sub = v@.subrange(start as int, end as int);
    let klen = key.len();
    let mut i: usize = start;
    while end - i >= 2 && (end - i) - 2 >= klen
        invariant
            start <= i <= end <= v.len(),
            klen == key@.len(),
            sub == v@.subrange(start as int, end as int),
            first_match_from(sub, key@, 0) == first_match_from(sub, key@, i - start),
        decreases end - i,
    {
        let ghost rel = i - start;
        proof {
            assert(v@.subrange(i as int, i + key@.len()) =~= sub.subrange(rel, rel + key@.len()));
        }
        let key_here = bytes_eq_at(v, key, i);
        let is_match = key_here && v[i + klen] == 61 && 48 <= v[i + klen + 1] && v[i + klen + 1]
            <= 57;
        proof {
            assert(sub[rel + key@.len()] == v@[i + klen]);
            assert(sub[rel + key@.len() + 1] == v@[i + klen + 1]);
            assert(is_match == full_match_at(sub, key@, rel));
        }
        if is_match {
            let dstart = i + klen + 1;
            let mut j: usize = dstart;
            while j < end && 48 <= v[j] && v[j] <= 57
                invariant
                    dstart <= j <= end <= v.len(),
                    forall|t: int| dstart <= t < j ==> is_digit(v@[t]),
                decreases end - j,
            {
                j += 1;
            }
            proof {
                assert(forall|t: int|
                    rel + key@.len() + 1 <= t < j - start ==> sub[t] == v@[start + t] && is_digit(
                        sub[t],
                    ));
                assert(j - start < sub.len() ==> sub[j - start] == v@[j as int]);
                lemma_run_end_locate(sub, rel + key@.len() + 1, j - start);
                assert(sub.subrange(rel + key@.len() + 1, j - start) =~= v@.subrange(
                    dstart as int,
                    j as int,
                ));
            }
            let val = digits_to_value(v, dstart, j, 65535);
            match val {
                Some(x) => {
                    return Some(x as u16);
                },
                None => {
                    proof {
                        assert(all_digits(v@.subrange(dstart as int, j as int)));
                    }
                    return None;
                },
            }
        }
        proof {
            assert(first_match_from(sub, key@, rel) == first_match_from(sub, key@, rel + 1));
        }
        i += 1;
    }
    proof {
        assert(first_match_from(sub, key@, i - start) is None);
    }
    None
}

/// Reads the previous assignment for `key` out of the store text, exactly
/// as `stored_port` describes it. The caller supplies the store's bytes;
/// a missing store reads as empty text and yields `None`.
pub fn read_stored_port(content: &Vec<u8>, key: &Vec<u8>) -> (r: Option<u16>)
    ensures
        r == stored_port(content@, key@),
{
    let n = content.len();
    let mut pos: usize = 0;
    while pos < n
        invariant
            pos <= n == content.len(),
            stored_port(content@, key@) == stored_port_from(content@, key@, pos as int),
        decreases n - pos,
    {
        let mut e: usize = pos;
        while e < n && content[e] != 10
            invariant
                pos <= e <= n == content.len(),
                forall|j: int| pos <= j < e ==> content@[j] != 10,
            decreases n - e,
        {
            e += 1;
        }
        proof {
            lemma_line_end_locate(content@, pos as int, e as int);
        }
        let lend = if e > pos && content[e - 1] == 13 {
            e - 1
        } else {
            e
        };
        proof {
            let line = content@.subrange(pos as int, e as int);
            if e > pos {
                assert(line.last() == content@[e - 1]);
            }
            if e > pos && content@[e - 1] == 13 {
                assert(line.drop_last() =~= content@.subrange(pos as int, lend as int));
            }
            assert(strip_cr(line) == content@.subrange(pos as int, lend as int));
        }
        let found = line_port_exec(content, key, pos, lend);
        if let Some(p) = found {
            return Some(p);
        }
        if e >= n {
            return None;
        }
        pos = e + 1;
    }
    None
}

/// Appends the decimal digits of `n`.
fn push_decimal(v: &mut Vec<u8>, n: u16)
    ensures
        final(v)@ == old(v)@ + dec_digits(n as int),
    decreases n,
{
    if n < 10 {
        v.push(48 + n as u8);
        proof {
            assert(old(v)@.push((48 + n) as u8) =~= old(v)@ + dec_digits(n as int));
        }
    } else {
        let ghost mid = old(v)@ + dec_digits(n as int / 10);
        push_decimal(v, n / 10);
        v.push(48 + (n % 10) as u8);
        proof {
            assert(mid.push((48 + n as int % 10) as u8) =~= old(v)@ + dec_digits(n as int));
        }
    }
}

/// Renders the single record line `export <key>=<port>` that a write
/// replaces the whole store with.
pub fn render_record(key: &Vec<u8>, port: u16) -> (r: Vec<u8>)
    ensures
        r@ == render_spec(key@, port),
{
    let mut out: Vec<u8> = Vec::new();
    out.push(101);
    out.push(120);
    out.push(112);
    out.push(111);
    out.push(114);
    out.push(116);
    out.push(32);
    proof {
        assert(out@ =~= export_prefix());
        assert(out@ =~= export_prefix() + key@.subrange(0, 0));
    }
    let mut i: usize = 0;
    while i < key.len()
        invariant
            i <= key.len(),
            out@ == export_prefix() + key@.subrange(0, i as int),
        decreases key.len() - i,
    {
        let ghost before = out@;
        out.push(key[i]);
        proof {
            assert(before.push(key@[i as int]) =~= export_prefix() + key@.subrange(0, i + 1));
        }
        i += 1;
    }
    proof {
        assert(key@.subrange(0, key@.len() as int) =~= key@);
    }
    out.push(61);
    push_decimal(&mut out, port);
    proof {
        assert(out@ =~= render_spec(key@, port));
    }
    out
}

} // verus!
