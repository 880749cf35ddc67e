//! Parsing the textual forms of IPv4 and IPv6 addresses.
//!
//! The grammars are stated over character sequences: an IPv4 text is
//! four octets separated by dots; an IPv6 text is colon-separated
//! hexadecimal groups with at most one `::` compression and an
//! optional trailing dotted-decimal IPv4 part.

use vstd::prelude::*;

use crate::ip::{IpAddress, Ipv4Address, Ipv6Address};
use crate::text::{
    all_dec_digits, all_hex_digits, dec_val, hex_val, is_hex_digit,
    dec_digit_of, hex_digit_of, lemma_dec_val_bounds, lemma_hex_val_bounds,
    split_on, split_ranges, pieces_of,
};

verus! {

/// A decimal octet: one to three digits, no leading zero, at most 255.
pub open spec fn is_octet_text(s: Seq<char>) -> bool {
    &&& 1 <= s.len() <= 3
    &&& all_dec_digits(s)
    &&& (s[0] == '0' ==> s.len() == 1)
    &&& dec_val(s) <= 255
}

/// An IPv4 text: four octets separated by dots.
pub open spec fn is_ipv4_text(s: Seq<char>) -> bool {
    let ps = split_on(s, '.');
    &&& ps.len() == 4
    &&& is_octet_text(ps[0])
    &&& is_octet_text(ps[1])
    &&& is_octet_text(ps[2])
    &&& is_octet_text(ps[3])
}

/// The address an IPv4 text denotes.
pub open spec fn ipv4_value(s: Seq<char>) -> Ipv4Address {
    let ps = split_on(s, '.');
    Ipv4Address {
        octets: [
            dec_val(ps[0]) as u8,
            dec_val(ps[1]) as u8,
            dec_val(ps[2]) as u8,
            dec_val(ps[3]) as u8,
        ],
    }
}

/// Read `s[from..to]` as a decimal octet.
fn check_octet(s: &str, from: usize, to: usize) -> (r: Option<u8>)
    requires
        from <= to <= s@.len(),
    ensures
        match r {
            Some(v) => is_octet_text(s@.subrange(from as int, to as int))
                && v as int == dec_val(s@.subrange(from as int, to as int)),
            None => !is_octet_text(s@.subrange(from as int, to as int)),
        },
{
    let ghost t = s@.subrange(from as int, to as int);
    let n = to - from;
    if n < 1 || n > 3 {
        return None;
    }
    if n > 1 && s.get_char(from) == '0' {
        return None;
    }
    let mut val: u32 = 0;
    let mut i: usize = from;
    while i < to
        invariant
            from <= i <= to <= s@.len(),
            1 <= to - from <= 3,
            t == s@.subrange(from as int, to as int),
            all_dec_digits(t.take(i - from)),
            val as int == dec_val(t.take(i - from)),
            val <= 999,
        decreases to - i,
    {
        let c = s.get_char(i);
        match dec_digit_of(c) {
            None => {
                proof {
                    assert(t[i - from] == c);
                    assert(!all_dec_digits(t));
                }
                return None;
            },
            Some(d) => {
                proof {
                    let pre = t.take(i - from);
                    let ext = t.take(i - from + 1);
                    assert(ext.drop_last() =~= pre);
                    assert(ext.last() == c);
                    assert(forall|j: int| 0 <= j < ext.len()
                        ==> ext[j] == (if j < pre.len() { pre[j] } else { c }));
                    lemma_dec_val_bounds(pre);
                }
                val = 10 * val + (d as u32);
            },
        }
        i = i + 1;
    }
    proof {
        assert(t.take(to - from) =~= t);
    }
    if val > 255 {
        return None;
    }
    Some(val as u8)
}

/// Parse `s[from..to]` as an IPv4 text.
pub fn parse_ipv4_range(s: &str, from: usize, to: usize) -> (r: Option<Ipv4Address>)
    requires
        from <= to <= s@.len(),
    ensures
        match r {
            Some(a) => is_ipv4_text(s@.subrange(from as int, to as int))
                && a == ipv4_value(s@.subrange(from as int, to as int)),
            None => !is_ipv4_text(s@.subrange(from as int, to as int)),
        },
{
    let ghost t = s@.subrange(from as int, to as int);
    let ranges = split_ranges(s, from, to, '.');
    proof {
        assert(forall|i: int| 0 <= i < ranges@.len()
            ==> split_on(t, '.')[i]
                == s@.subrange((#[trigger] ranges@[i]).0 as int, ranges@[i].1 as int));
    }
    if ranges.len() != 4 {
        return None;
    }
    let (f0, t0) = ranges[0];
    let (f1, t1) = ranges[1];
    let (f2, t2) = ranges[2];
    let (f3, t3) = ranges[3];
    let o0 = match check_octet(s, f0, t0) {
        Some(v) => v,
        None => { return None; },
    };
    let o1 = match check_octet(s, f1, t1) {
        Some(v) => v,
        None => { return None; },
    };
    let o2 = match check_octet(s, f2, t2) {
        Some(v) => v,
        None => { return None; },
    };
    let o3 = match check_octet(s, f3, t3) {
        Some(v) => v,
        None => { return None; },
    };
    Some(Ipv4Address { octets: [o0, o1, o2, o3] })
}

/// Parse a whole string as an IPv4 text.
pub fn parse_ipv4(s: &str) -> (r: Option<Ipv4Address>)
    ensures
        match r {
            Some(a) => is_ipv4_text(s@) && a == ipv4_value(s@),
            None => !is_ipv4_text(s@),
        },
{
    let n = s.unicode_len();
    proof {
        assert(s@.subrange(0, n as int) =~= s@);
    }
    parse_ipv4_range(s, 0, n)
}

/// A hexadecimal group: one to four hexadecimal digits.
pub open spec fn is_hex_group(s: Seq<char>) -> bool {
    1 <= s.len() <= 4 && all_hex_digits(s)
}

/// The pieces `ps[lo..hi]` are all hexadecimal groups.
pub open spec fn all_hex_groups(ps: Seq<Seq<char>>, lo: int, hi: int) -> bool {
    forall|i: int| lo <= i < hi ==> is_hex_group(#[trigger] ps[i])
}

/// The 16-bit values of the hexadecimal pieces `ps[lo..hi]`.
pub open spec fn group_vals(ps: Seq<Seq<char>>, lo: int, hi: int) -> Seq<u16> {
    Seq::new((hi - lo) as nat, |i: int| hex_val(ps[lo + i]) as u16)
}

/// The two 16-bit groups an embedded IPv4 address contributes.
pub open spec fn v4_groups(a: Ipv4Address) -> Seq<u16> {
    seq![
        (a.octets[0] as int * 256 + a.octets[1] as int) as u16,
        (a.octets[2] as int * 256 + a.octets[3] as int) as u16,
    ]
}

/// The pieces `ps[lo..hi]` are all nonempty.
pub open spec fn pieces_nonempty(ps: Seq<Seq<char>>, lo: int, hi: int) -> bool {
    forall|i: int| lo <= i < hi ==> (#[trigger] ps[i]).len() != 0
}

/// The pieces after a `::`: hexadecimal groups, except that the final
/// piece may be an embedded IPv4 text.
pub open spec fn tail_ok(ps: Seq<Seq<char>>, lo: int, hi: int) -> bool {
    if hi <= lo {
        true
    } else {
        all_hex_groups(ps, lo, hi - 1)
            && (is_hex_group(ps[hi - 1]) || is_ipv4_text(ps[hi - 1]))
    }
}

/// How many 16-bit groups the tail pieces stand for: an embedded IPv4
/// text counts as two.
pub open spec fn tail_word_count(ps: Seq<Seq<char>>, lo: int, hi: int) -> int {
    if hi <= lo {
        0
    } else if is_ipv4_text(ps[hi - 1]) {
        hi - lo + 1
    } else {
        hi - lo
    }
}

/// The 16-bit groups of the tail pieces.
pub open spec fn tail_vals(ps: Seq<Seq<char>>, lo: int, hi: int) -> Seq<u16> {
    if hi <= lo {
        Seq::empty()
    } else if is_ipv4_text(ps[hi - 1]) {
        group_vals(ps, lo, hi - 1) + v4_groups(ipv4_value(ps[hi - 1]))
    } else {
        group_vals(ps, lo, hi)
    }
}

/// The index of the first empty piece, or `ps.len()` when none is.
pub open spec fn first_empty(ps: Seq<Seq<char>>) -> int
    decreases ps.len(),
{
    if ps.len() == 0 {
        0
    } else if ps[0].len() == 0 {
        0
    } else {
        1 + first_empty(ps.drop_first())
    }
}

/// `first_empty` points at the first empty piece.
pub proof fn lemma_first_empty_is(ps: Seq<Seq<char>>, k: int)
    requires
        0 <= k <= ps.len(),
        forall|j: int| 0 <= j < k ==> (#[trigger] ps[j]).len() != 0,
        k < ps.len() ==> ps[k].len() == 0,
    ensures
        first_empty(ps) == k,
    decreases ps.len(),
{
    if k == 0 {
    } else {
        let t = ps.drop_first();
        assert(forall|j: int| 0 <= j < k - 1 ==> t[j] == #[trigger] ps[j + 1]);
        lemma_first_empty_is(t, k - 1);
    }
}

/// Where the `::` compression sits, read off the piece list: the head
/// pieces are `ps[0..h]` and the tail pieces `ps[t..]`.  `None` when
/// the empty pieces do not form exactly one compression.
pub open spec fn compressed_bounds(ps: Seq<Seq<char>>) -> Option<(int, int)> {
    let n = ps.len() as int;
    if n == 3 && ps[0].len() == 0 && ps[1].len() == 0 && ps[2].len() == 0 {
        // the whole text is `::`
        Some((0, 3))
    } else if n >= 3 && ps[0].len() == 0 && ps[1].len() == 0 && pieces_nonempty(ps, 2, n) {
        // the text starts with `::`
        Some((0, 2))
    } else if n >= 3 && ps[n - 2].len() == 0 && ps[n - 1].len() == 0
        && pieces_nonempty(ps, 0, n - 2) {
        // the text ends with `::`
        Some((n - 2, n))
    } else if 0 < first_empty(ps) < n - 1 && pieces_nonempty(ps, first_empty(ps) + 1, n) {
        // a `::` between two groups
        Some((first_empty(ps), first_empty(ps) + 1))
    } else {
        None
    }
}

/// `k` zero groups.
pub open spec fn zero_groups(k: int) -> Seq<u16> {
    Seq::new(k as nat, |i: int| 0u16)
}

/// The eight 16-bit groups an IPv6 text denotes, or `None` when the
/// text is not an IPv6 text.  The text is split on colons; either all
/// pieces are nonempty (eight groups, or six and a trailing IPv4
/// text), or empty pieces mark exactly one `::`, which stands for the
/// zero groups that complete the eight.
pub open spec fn spec_ipv6_groups(s: Seq<char>) -> Option<Seq<u16>> {
    let ps = split_on(s, ':');
    let n = ps.len() as int;
    if pieces_nonempty(ps, 0, n) {
        if n == 8 && all_hex_groups(ps, 0, 8) {
            Some(group_vals(ps, 0, 8))
        } else if n == 7 && all_hex_groups(ps, 0, 6) && is_ipv4_text(ps[6]) {
            Some(group_vals(ps, 0, 6) + v4_groups(ipv4_value(ps[6])))
        } else {
            None
        }
    } else {
        match compressed_bounds(ps) {
            None => None,
            Some(ht) => {
                let words = ht.0 + tail_word_count(ps, ht.1, n);
                if all_hex_groups(ps, 0, ht.0) && tail_ok(ps, ht.1, n) && words <= 7 {
                    Some(group_vals(ps, 0, ht.0) + zero_groups(8 - words)
                        + tail_vals(ps, ht.1, n))
                } else {
                    None
                }
            },
        }
    }
}

/// An IPv6 text.
pub open spec fn is_ipv6_text(s: Seq<char>) -> bool {
    spec_ipv6_groups(s) is Some
}

/// An address from its eight groups.
pub open spec fn ipv6_from_groups(g: Seq<u16>) -> Ipv6Address {
    Ipv6Address { segments: [g[0], g[1], g[2], g[3], g[4], g[5], g[6], g[7]] }
}

/// The address an IPv6 text denotes.
pub open spec fn ipv6_value(s: Seq<char>) -> Ipv6Address {
    match spec_ipv6_groups(s) {
        Some(g) => ipv6_from_groups(g),
        None => ipv6_from_groups(Seq::empty()),
    }
}

/// A hexadecimal group never reads as an IPv4 text: it has no dot.
pub proof fn lemma_hex_group_not_ipv4(p: Seq<char>)
    requires
        is_hex_group(p),
    ensures
        !is_ipv4_text(p),
{
    assert(forall|j: int| 0 <= j < p.len() ==> p[j] != '.') by {
        assert(forall|j: int| 0 <= j < p.len() ==> is_hex_digit(#[trigger] p[j]));
        assert(!is_hex_digit('.'));
    }
    crate::text::lemma_split_on_no_sep(p, '.');
}

/// Read `s[from..to]` as a hexadecimal group.
fn check_hex_group(s: &str, from: usize, to: usize) -> (r: Option<u16>)
    requires
        from <= to <= s@.len(),
    ensures
        match r {
            Some(v) => is_hex_group(s@.subrange(from as int, to as int))
                && v as int == hex_val(s@.subrange(from as int, to as int)),
            None => !is_hex_group(s@.subrange(from as int, to as int)),
        },
{
    let ghost t = s@.subrange(from as int, to as int);
    let n = to - from;
    if n < 1 || n > 4 {
        return None;
    }
    let mut val: u32 = 0;
    let mut i: usize = from;
    while i < to
        invariant
            from <= i <= to <= s@.len(),
            1 <= to - from <= 4,
            t == s@.subrange(from as int, to as int),
            all_hex_digits(t.take(i - from)),
            val as int == hex_val(t.take(i - from)),
            val <= 0xffff,
        decreases to - i,
    {
        let c = s.get_char(i);
        match hex_digit_of(c) {
            None => {
                proof {
                    assert(t[i - from] == c);
                    assert(!all_hex_digits(t));
                }
                return None;
            },
            Some(d) => {
                proof {
                    let pre = t.take(i - from);
                    let ext = t.take(i - from + 1);
                    assert(ext.drop_last() =~= pre);
                    assert(ext.last() == c);
                    assert(forall|j: int| 0 <= j < ext.len()
                        ==> ext[j] == (if j < pre.len() { pre[j] } else { c }));
                    lemma_hex_val_bounds(pre);
                }
                val = 16 * val + (d as u32);
            },
        }
        i = i + 1;
    }
    proof {
        assert(t.take(to - from) =~= t);
    }
    Some(val as u16)
}

/// The bounds of every piece range are within the string.
pub open spec fn ranges_wf(s: Seq<char>, rs: Seq<(usize, usize)>) -> bool {
    forall|i: int| 0 <= i < rs.len() ==> (#[trigger] rs[i]).0 <= rs[i].1 <= s.len()
}

/// Whether the piece named by `ranges[i]` is empty.
fn piece_empty(s: &str, ranges: &Vec<(usize, usize)>, i: usize) -> (r: bool)
    requires
        i < ranges@.len(),
        ranges_wf(s@, ranges@),
    ensures
        r == (pieces_of(s@, ranges@)[i as int].len() == 0),
{
    let (a, b) = ranges[i];
    proof {
        assert(pieces_of(s@, ranges@)[i as int] == s@.subrange(a as int, b as int));
    }
    a == b
}

/// Whether the pieces named by `ranges[lo..hi]` are all nonempty.
fn all_nonempty(s: &str, ranges: &Vec<(usize, usize)>, lo: usize, hi: usize) -> (r: bool)
    requires
        lo <= hi <= ranges@.len(),
        ranges_wf(s@, ranges@),
    ensures
        r == pieces_nonempty(pieces_of(s@, ranges@), lo as int, hi as int),
{
    let ghost ps = pieces_of(s@, ranges@);
    let mut i = lo;
    while i < hi
        invariant
            lo <= i <= hi <= ranges@.len(),
            ranges_wf(s@, ranges@),
            ps == pieces_of(s@, ranges@),
            pieces_nonempty(ps, lo as int, i as int),
        decreases hi - i,
    {
        let (a, b) = ranges[i];
        proof {
            assert(ps[i as int] == s@.subrange(a as int, b as int));
        }
        if a == b {
            proof {
                assert(ps[i as int].len() == 0);
            }
            return false;
        }
        i = i + 1;
    }
    true
}

/// An address from a head of groups, a zero run, and a tail of groups.
fn assemble_groups(head: Vec<u16>, tail: Vec<u16>) -> (r: Ipv6Address)
    requires
        head@.len() + tail@.len() <= 7,
    ensures
        r == ipv6_from_groups(
            head@ + zero_groups(8 - head@.len() - tail@.len()) + tail@,
        ),
{
    broadcast use vstd::array::group_array_axioms;

    let words = head.len() + tail.len();
    let zeros = 8 - words;
    let mut g: Vec<u16> = head;
    let mut z: usize = 0;
    while z < zeros
        invariant
            z <= zeros,
            g@ =~= head@ + zero_groups(z as int),
            zeros == 8 - head@.len() - tail@.len(),
        decreases zeros - z,
    {
        proof {
            assert(head@ + zero_groups(z + 1) =~= (head@ + zero_groups(z as int)).push(0u16));
        }
        g.push(0);
        z = z + 1;
    }
    let mut j: usize = 0;
    while j < tail.len()
        invariant
            j <= tail@.len(),
            g@ =~= head@ + zero_groups(zeros as int) + tail@.take(j as int),
            zeros == 8 - head@.len() - tail@.len(),
        decreases tail@.len() - j,
    {
        proof {
            assert(tail@.take(j + 1) =~= tail@.take(j as int).push(tail@[j as int]));
        }
        let x = tail[j];
        g.push(x);
        j = j + 1;
    }
    proof {
        assert(tail@.take(tail@.len() as int) =~= tail@);
        assert(g@ =~= head@ + zero_groups(zeros as int) + tail@);
        assert(g@.len() == 8);
    }
    let addr = Ipv6Address { segments: [g[0], g[1], g[2], g[3], g[4], g[5], g[6], g[7]] };
    proof {
        assert(addr.segments =~= ipv6_from_groups(g@).segments);
    }
    addr
}

/// Read the pieces named by `ranges[lo..hi]` as hexadecimal groups.
fn collect_hex_groups(s: &str, ranges: &Vec<(usize, usize)>, lo: usize, hi: usize) -> (r: Option<
    Vec<u16>,
>)
    requires
        lo <= hi <= ranges@.len(),
        forall|i: int| 0 <= i < ranges@.len()
            ==> (#[trigger] ranges@[i]).0 <= ranges@[i].1 <= s@.len(),
    ensures
        match r {
            Some(v) => all_hex_groups(pieces_of(s@, ranges@), lo as int, hi as int)
                && v@ == group_vals(pieces_of(s@, ranges@), lo as int, hi as int),
            None => !all_hex_groups(pieces_of(s@, ranges@), lo as int, hi as int),
        },
{
    let ghost ps = pieces_of(s@, ranges@);
    let mut v: Vec<u16> = Vec::new();
    let mut i = lo;
    while i < hi
        invariant
            lo <= i <= hi <= ranges@.len(),
            ps == pieces_of(s@, ranges@),
            forall|k: int| 0 <= k < ranges@.len()
                ==> (#[trigger] ranges@[k]).0 <= ranges@[k].1 <= s@.len(),
            all_hex_groups(ps, lo as int, i as int),
            v@ == group_vals(ps, lo as int, i as int),
        decreases hi - i,
    {
        let (a, b) = ranges[i];
        proof {
            assert(ps[i as int] == s@.subrange(a as int, b as int));
        }
        match check_hex_group(s, a, b) {
            None => {
                proof {
                    assert(!is_hex_group(ps[i as int]));
                }
                return None;
            },
            Some(g) => {
                proof {
                    assert(group_vals(ps, lo as int, i + 1)
                        =~= group_vals(ps, lo as int, i as int).push(
                        (hex_val(ps[i as int]) as u16)));
                }
                v.push(g);
            },
        }
        i = i + 1;
    }
    Some(v)
}

/// Parse a whole string as an IPv6 text.
pub fn parse_ipv6(s: &str) -> (r: Option<Ipv6Address>)
    ensures
        match r {
            Some(a) => is_ipv6_text(s@) && a == ipv6_value(s@),
            None => !is_ipv6_text(s@),
        },
{
    broadcast use vstd::array::group_array_axioms;

    let n_chars = s.unicode_len();
    proof {
        assert(s@.subrange(0, n_chars as int) =~= s@);
    }
    let ranges = split_ranges(s, 0, n_chars, ':');
    let ghost ps = split_on(s@, ':');
    let n = ranges.len();
    proof {
        assert(ps == pieces_of(s@, ranges@));
        assert(ps.len() == n);
        assert(forall|j: int| 0 <= j < n
            ==> (#[trigger] ps[j]).len() == ranges@[j].1 - ranges@[j].0);
    }
    // locate the first empty piece, if any
    let mut fe: usize = n;
    let mut i: usize = 0;
    while i < n
        invariant
            i <= n,
            n == ranges@.len(),
            fe == n || fe < i,
            forall|j: int| 0 <= j < n
                ==> (#[trigger] ps[j]).len() == ranges@[j].1 - ranges@[j].0,
            fe == n ==> forall|j: int| 0 <= j < i ==> (#[trigger] ps[j]).len() != 0,
            fe < n ==> ps[fe as int].len() == 0
                && (forall|j: int| 0 <= j < fe ==> (#[trigger] ps[j]).len() != 0),
        decreases n - i,
    {
        let (a, b) = ranges[i];
        if fe == n && a == b {
            fe = i;
        }
        i = i + 1;
    }
    if fe == n {
        // no empty piece: no `::` in the text
        proof {
            assert(pieces_nonempty(ps, 0, n as int));
        }
        if n == 8 {
            match collect_hex_groups(s, &ranges, 0, 8) {
                None => None,
                Some(v) => {
                    let addr = Ipv6Address {
                        segments: [v[0], v[1], v[2], v[3], v[4], v[5], v[6], v[7]],
                    };
                    proof {
                        let g = group_vals(ps, 0, 8);
                        assert(spec_ipv6_groups(s@) == Some(g));
                        assert(addr.segments =~= ipv6_from_groups(g).segments);
                    }
                    Some(addr)
                },
            }
        } else if n == 7 {
            match collect_hex_groups(s, &ranges, 0, 6) {
                None => None,
                Some(v) => {
                    let (a6, b6) = ranges[6];
                    proof {
                        assert(ps[6] == s@.subrange(a6 as int, b6 as int));
                    }
                    match parse_ipv4_range(s, a6, b6) {
                        None => None,
                        Some(a4) => {
                            let g6: u16 = (a4.octets[0] as u16) * 256 + (a4.octets[1] as u16);
                            let g7: u16 = (a4.octets[2] as u16) * 256 + (a4.octets[3] as u16);
                            let addr = Ipv6Address {
                                segments: [v[0], v[1], v[2], v[3], v[4], v[5], g6, g7],
                            };
                            proof {
                                let g = group_vals(ps, 0, 6) + v4_groups(ipv4_value(ps[6]));
                                assert(spec_ipv6_groups(s@) == Some(g));
                                assert(addr.segments =~= ipv6_from_groups(g).segments);
                            }
                            Some(addr)
                        },
                    }
                },
            }
        } else {
            None
        }
    } else {
        parse_ipv6_compressed(s, &ranges, fe)
    }
}

/// Parse the compressed (`::`) form, given the index of the first
/// empty piece.
fn parse_ipv6_compressed(s: &str, ranges: &Vec<(usize, usize)>, fe: usize) -> (r: Option<
    Ipv6Address,
>)
    requires
        split_on(s@, ':') == pieces_of(s@, ranges@),
        ranges_wf(s@, ranges@),
        fe < ranges@.len(),
        pieces_of(s@, ranges@)[fe as int].len() == 0,
        forall|j: int| 0 <= j < fe
            ==> (#[trigger] pieces_of(s@, ranges@)[j]).len() != 0,
    ensures
        match r {
            Some(a) => is_ipv6_text(s@) && a == ipv6_value(s@),
            None => !is_ipv6_text(s@),
        },
{
    let ghost ps = split_on(s@, ':');
    let n = ranges.len();
    proof {
        assert(!pieces_nonempty(ps, 0, n as int));
        lemma_first_empty_is(ps, fe as int);
    }
    let c1 = if n == 3 {
        piece_empty(s, ranges, 0) && piece_empty(s, ranges, 1) && piece_empty(s, ranges, 2)
    } else {
        false
    };
    let c2 = if !c1 && n >= 3 {
        piece_empty(s, ranges, 0) && piece_empty(s, ranges, 1) && all_nonempty(s, ranges, 2, n)
    } else {
        false
    };
    let c3 = if !c1 && !c2 && n >= 3 {
        piece_empty(s, ranges, n - 2) && piece_empty(s, ranges, n - 1)
            && all_nonempty(s, ranges, 0, n - 2)
    } else {
        false
    };
    let c4 = if !c1 && !c2 && !c3 {
        0 < fe && fe + 1 < n && all_nonempty(s, ranges, fe + 1, n)
    } else {
        false
    };
    let h: usize;
    let t: usize;
    if c1 {
        h = 0;
        t = 3;
    } else if c2 {
        h = 0;
        t = 2;
    } else if c3 {
        h = n - 2;
        t = n;
    } else if c4 {
        h = fe;
        t = fe + 1;
    } else {
        proof {
            assert(compressed_bounds(ps) is None);
        }
        return None;
    }
    proof {
        assert(compressed_bounds(ps) == Some((h as int, t as int)));
    }
    let head = match collect_hex_groups(s, ranges, 0, h) {
        None => {
            return None;
        },
        Some(v) => v,
    };
    let mut tail: Vec<u16> = Vec::new();
    if t < n {
        match collect_hex_groups(s, ranges, t, n - 1) {
            None => {
                proof {
                    assert(!tail_ok(ps, t as int, n as int));
                }
                return None;
            },
            Some(v) => {
                tail = v;
            },
        }
        let (la, lb) = ranges[n - 1];
        proof {
            assert(ps[n - 1] == s@.subrange(la as int, lb as int));
        }
        match check_hex_group(s, la, lb) {
            Some(g) => {
                proof {
                    lemma_hex_group_not_ipv4(ps[n - 1]);
                    assert(group_vals(ps, t as int, n as int) =~= group_vals(
                        ps,
                        t as int,
                        n - 1,
                    ).push((hex_val(ps[n - 1]) as u16)));
                }
                tail.push(g);
                proof {
                    assert(tail@ == tail_vals(ps, t as int, n as int));
                }
            },
            None => {
                match parse_ipv4_range(s, la, lb) {
                    Some(a4) => {
                        tail.push((a4.octets[0] as u16) * 256 + (a4.octets[1] as u16));
                        tail.push((a4.octets[2] as u16) * 256 + (a4.octets[3] as u16));
                        proof {
                            assert(tail@ =~= group_vals(ps, t as int, n - 1) + v4_groups(
                                ipv4_value(ps[n - 1]),
                            ));
                        }
                    },
                    None => {
                        proof {
                            assert(!tail_ok(ps, t as int, n as int));
                        }
                        return None;
                    },
                }
            },
        }
        proof {
            assert(tail_ok(ps, t as int, n as int));
            assert(tail@.len() == tail_word_count(ps, t as int, n as int));
        }
    } else {
        proof {
            assert(tail@ =~= tail_vals(ps, t as int, n as int));
        }
    }
    if h > 7 || tail.len() > 7 {
        return None;
    }
    let words = h + tail.len();
    if words > 7 {
        return None;
    }
    proof {
        assert(spec_ipv6_groups(s@) == Some(
            group_vals(ps, 0, h as int) + zero_groups(8 - words)
                + tail_vals(ps, t as int, n as int),
        ));
    }
    Some(assemble_groups(head, tail))
}

/// Parse a whole string as an IP address of either family.  An IPv4
/// text never holds a colon and an IPv6 text always does, so the two
/// grammars are disjoint.
pub open spec fn spec_parse_ip(s: Seq<char>) -> Option<IpAddress> {
    if is_ipv4_text(s) {
        Some(IpAddress::V4(ipv4_value(s)))
    } else if is_ipv6_text(s) {
        Some(IpAddress::V6(ipv6_value(s)))
    } else {
        None
    }
}

/// Parse a string as an IP address: the IPv4 form first, then IPv6.
pub fn parse_ip(s: &str) -> (r: Option<IpAddress>)
    ensures
        r == spec_parse_ip(s@),
{
    match parse_ipv4(s) {
        Some(a) => Some(IpAddress::V4(a)),
        None => match parse_ipv6(s) {
            Some(a) => Some(IpAddress::V6(a)),
            None => None,
        },
    }
}

} // verus!

