//! Formatting addresses as text: dotted decimal for IPv4 and the
//! standard compressed form for IPv6 (longest zero run collapsed to
//! `::`, leftmost on a tie, and the mixed dotted form for IPv4-mapped
//! addresses).

use vstd::prelude::*;
use vstd::string::StringExecFns;

use crate::ip::{is_ipv4_mapped, mapped_ipv4, IpAddress, Ipv4Address, Ipv6Address};
use crate::ip_parse::{
    compressed_bounds, group_vals, ipv4_value, ipv6_from_groups, ipv6_value, is_hex_group,
    is_ipv4_text, is_ipv6_text, is_octet_text, lemma_first_empty_is, lemma_hex_group_not_ipv4,
    pieces_nonempty, spec_ipv6_groups, tail_ok, tail_vals, tail_word_count, zero_groups,
};
use crate::text::{
    all_dec_digits, all_hex_digits, dec_digit_val, dec_val, hex_digit_val, hex_val,
    is_dec_digit, is_hex_digit, lemma_split_on_concat, lemma_split_on_no_sep, split_on,
};

verus! {

/// The character of a decimal digit value.
pub open spec fn dec_digit_char(d: int) -> char {
    if d == 0 { '0' }
    else if d == 1 { '1' }
    else if d == 2 { '2' }
    else if d == 3 { '3' }
    else if d == 4 { '4' }
    else if d == 5 { '5' }
    else if d == 6 { '6' }
    else if d == 7 { '7' }
    else if d == 8 { '8' }
    else { '9' }
}

/// The lowercase character of a hexadecimal digit value.
pub open spec fn hex_digit_char(d: int) -> char {
    if d < 10 { dec_digit_char(d) }
    else if d == 10 { 'a' }
    else if d == 11 { 'b' }
    else if d == 12 { 'c' }
    else if d == 13 { 'd' }
    else if d == 14 { 'e' }
    else { 'f' }
}

/// The canonical decimal text of `n`: no leading zeros.
pub open spec fn dec_text(n: int) -> Seq<char>
    decreases n,
{
    if n < 10 {
        seq![dec_digit_char(n)]
    } else {
        dec_text(n / 10) + seq![dec_digit_char(n % 10)]
    }
}

/// The canonical lowercase hexadecimal text of `n`: no leading zeros.
pub open spec fn hex_text(n: int) -> Seq<char>
    decreases n,
{
    if n < 16 {
        seq![hex_digit_char(n)]
    } else {
        hex_text(n / 16) + seq![hex_digit_char(n % 16)]
    }
}

/// The dotted-decimal text of an IPv4 address.
pub open spec fn ipv4_text_of(a: Ipv4Address) -> Seq<char> {
    dec_text(a.octets[0] as int) + seq!['.'] + dec_text(a.octets[1] as int) + seq!['.']
        + dec_text(a.octets[2] as int) + seq!['.'] + dec_text(a.octets[3] as int)
}

/// The decimal text of `0 <= n <= 255` is a well-formed octet text
/// and reads back as `n`.
pub proof fn lemma_dec_text_props(n: int)
    requires
        0 <= n,
    ensures
        dec_text(n).len() >= 1,
        all_dec_digits(dec_text(n)),
        dec_val(dec_text(n)) == n,
        n >= 1 ==> dec_text(n)[0] != '0',
        n < 10 ==> dec_text(n).len() == 1,
        n < 100 ==> dec_text(n).len() <= 2,
        n < 1000 ==> dec_text(n).len() <= 3,
    decreases n,
{
    if n < 10 {
        let t = seq![dec_digit_char(n)];
        assert(t.drop_last() =~= Seq::<char>::empty());
        assert(t.last() == dec_digit_char(n));
        assert(dec_val(Seq::<char>::empty()) == 0);
        assert(is_dec_digit(dec_digit_char(n)));
        assert(dec_digit_val(dec_digit_char(n)) == n);
        assert(dec_val(t) == n);
    } else {
        lemma_dec_text_props(n / 10);
        let x = dec_text(n / 10);
        let c = dec_digit_char(n % 10);
        let t = x + seq![c];
        assert(t.drop_last() =~= x);
        assert(t.last() == c);
        assert(is_dec_digit(c));
        assert(dec_val(t) == 10 * dec_val(x) + (n % 10));
        assert(t[0] == x[0]);
    }
}

/// The decimal text of an octet value is an octet text.
pub proof fn lemma_dec_text_octet(n: int)
    requires
        0 <= n <= 255,
    ensures
        is_octet_text(dec_text(n)),
        dec_val(dec_text(n)) == n,
{
    lemma_dec_text_props(n);
}

/// Formatting an IPv4 address and parsing the text back returns the
/// address: the dotted-decimal form is an IPv4 text and denotes the
/// same four octets.
pub proof fn lemma_ipv4_text_roundtrip(a: Ipv4Address)
    ensures
        is_ipv4_text(ipv4_text_of(a)),
        ipv4_value(ipv4_text_of(a)) == a,
{
    broadcast use vstd::array::group_array_axioms;

    let d0 = dec_text(a.octets[0] as int);
    let d1 = dec_text(a.octets[1] as int);
    let d2 = dec_text(a.octets[2] as int);
    let d3 = dec_text(a.octets[3] as int);
    lemma_dec_text_octet(a.octets[0] as int);
    lemma_dec_text_octet(a.octets[1] as int);
    lemma_dec_text_octet(a.octets[2] as int);
    lemma_dec_text_octet(a.octets[3] as int);
    assert(!is_dec_digit('.'));
    let t = ipv4_text_of(a);
    let y2 = d2 + seq!['.'] + d3;
    let y1 = d1 + seq!['.'] + y2;
    assert(t =~= d0 + seq!['.'] + y1);
    lemma_split_on_concat(d0, y1, '.');
    lemma_split_on_concat(d1, y2, '.');
    lemma_split_on_concat(d2, d3, '.');
    lemma_split_on_no_sep(d3, '.');
    assert(split_on(t, '.') =~= seq![d0, d1, d2, d3]);
    assert(ipv4_value(t).octets =~= a.octets);
}

/// Append the character of a decimal digit value.
fn push_dec_digit(out: &mut String, d: u8)
    requires
        d < 10,
    ensures
        final(out)@ == old(out)@ + seq![dec_digit_char(d as int)],
{
    match d {
        0 => {
            proof { reveal_strlit("0"); }
            out.append("0");
        },
        1 => {
            proof { reveal_strlit("1"); }
            out.append("1");
        },
        2 => {
            proof { reveal_strlit("2"); }
            out.append("2");
        },
        3 => {
            proof { reveal_strlit("3"); }
            out.append("3");
        },
        4 => {
            proof { reveal_strlit("4"); }
            out.append("4");
        },
        5 => {
            proof { reveal_strlit("5"); }
            out.append("5");
        },
        6 => {
            proof { reveal_strlit("6"); }
            out.append("6");
        },
        7 => {
            proof { reveal_strlit("7"); }
            out.append("7");
        },
        8 => {
            proof { reveal_strlit("8"); }
            out.append("8");
        },
        _ => {
            proof { reveal_strlit("9"); }
            out.append("9");
        },
    }
    proof {
        assert(final(out)@ =~= old(out)@ + seq![dec_digit_char(d as int)]);
    }
}

/// Append the lowercase character of a hexadecimal digit value.
fn push_hex_digit(out: &mut String, d: u8)
    requires
        d < 16,
    ensures
        final(out)@ == old(out)@ + seq![hex_digit_char(d as int)],
{
    if d < 10 {
        push_dec_digit(out, d);
    } else {
        match d {
            10 => {
                proof { reveal_strlit("a"); }
                out.append("a");
            },
            11 => {
                proof { reveal_strlit("b"); }
                out.append("b");
            },
            12 => {
                proof { reveal_strlit("c"); }
                out.append("c");
            },
            13 => {
                proof { reveal_strlit("d"); }
                out.append("d");
            },
            14 => {
                proof { reveal_strlit("e"); }
                out.append("e");
            },
            _ => {
                proof { reveal_strlit("f"); }
                out.append("f");
            },
        }
        proof {
            assert(final(out)@ =~= old(out)@ + seq![hex_digit_char(d as int)]);
        }
    }
}

/// Append the canonical decimal text of `v`.
pub fn push_dec(out: &mut String, v: u32)
    ensures
        final(out)@ == old(out)@ + dec_text(v as int),
    decreases v,
{
    if v >= 10 {
        push_dec(out, v / 10);
    }
    push_dec_digit(out, (v % 10) as u8);
    proof {
        assert(final(out)@ =~= old(out)@ + dec_text(v as int));
    }
}

/// Append the canonical lowercase hexadecimal text of `v`.
fn push_hex(out: &mut String, v: u16)
    ensures
        final(out)@ == old(out)@ + hex_text(v as int),
    decreases v,
{
    if v >= 16 {
        push_hex(out, v / 16);
    }
    push_hex_digit(out, (v % 16) as u8);
    proof {
        assert(final(out)@ =~= old(out)@ + hex_text(v as int));
    }
}

/// Append the dotted-decimal text of an IPv4 address.
fn push_ipv4(out: &mut String, a: &Ipv4Address)
    ensures
        final(out)@ == old(out)@ + ipv4_text_of(*a),
{
    proof {
        reveal_strlit(".");
    }
    push_dec(out, a.octets[0] as u32);
    out.append(".");
    push_dec(out, a.octets[1] as u32);
    out.append(".");
    push_dec(out, a.octets[2] as u32);
    out.append(".");
    push_dec(out, a.octets[3] as u32);
    proof {
        assert("."@ =~= seq!['.']);
        assert(final(out)@ =~= old(out)@ + ipv4_text_of(*a));
    }
}

/// The dotted-decimal text of an IPv4 address.
pub fn ipv4_to_text(a: &Ipv4Address) -> (r: String)
    ensures
        r@ == ipv4_text_of(*a),
{
    let mut out = String::new();
    push_ipv4(&mut out, a);
    proof {
        assert(out@ =~= ipv4_text_of(*a));
    }
    out
}

/// The length of the run of zero groups starting at `i`.
pub open spec fn zrun_at(g: Seq<u16>, i: int) -> int
    decreases g.len() - i,
{
    if i < 0 || i >= g.len() || g[i] != 0 {
        0
    } else {
        1 + zrun_at(g, i + 1)
    }
}

/// The leftmost longest run of zero groups at or after `i`: its start
/// and its length.
pub open spec fn best_run_from(g: Seq<u16>, i: int) -> (int, int)
    decreases g.len() - i,
{
    if i >= g.len() {
        (g.len() as int, 0)
    } else {
        let l = zrun_at(g, i);
        let rest = best_run_from(g, i + 1);
        if l >= rest.1 {
            (i, l)
        } else {
            rest
        }
    }
}

/// The groups `g[lo..hi]` as hexadecimal texts joined with colons.
pub open spec fn hex_join(g: Seq<u16>, lo: int, hi: int) -> Seq<char>
    decreases hi - lo,
{
    if hi <= lo {
        Seq::empty()
    } else if hi == lo + 1 {
        hex_text(g[lo] as int)
    } else {
        hex_text(g[lo] as int) + seq![':'] + hex_join(g, lo + 1, hi)
    }
}

/// A joined range grows at its back.
proof fn lemma_hex_join_snoc(g: Seq<u16>, lo: int, k: int)
    requires
        lo <= k,
    ensures
        hex_join(g, lo, k + 1) == if k == lo {
            hex_text(g[lo] as int)
        } else {
            hex_join(g, lo, k) + seq![':'] + hex_text(g[k] as int)
        },
    decreases k - lo,
{
    if k == lo {
    } else {
        lemma_hex_join_snoc(g, lo + 1, k);
        assert(hex_join(g, lo, k + 1) =~= hex_join(g, lo, k) + seq![':'] + hex_text(
            g[k] as int,
        ));
    }
}

/// The hexadecimal text of `0 <= n <= 0xffff` is a well-formed group
/// text and reads back as `n`.
pub proof fn lemma_hex_text_props(n: int)
    requires
        0 <= n,
    ensures
        hex_text(n).len() >= 1,
        all_hex_digits(hex_text(n)),
        hex_val(hex_text(n)) == n,
        n < 0x10 ==> hex_text(n).len() == 1,
        n < 0x100 ==> hex_text(n).len() <= 2,
        n < 0x1000 ==> hex_text(n).len() <= 3,
        n < 0x10000 ==> hex_text(n).len() <= 4,
    decreases n,
{
    if n < 16 {
        let t = seq![hex_digit_char(n)];
        assert(t.drop_last() =~= Seq::<char>::empty());
        assert(t.last() == hex_digit_char(n));
        assert(hex_val(Seq::<char>::empty()) == 0);
        assert(is_hex_digit(hex_digit_char(n)));
        assert(hex_digit_val(hex_digit_char(n)) == n);
        assert(hex_val(t) == n);
    } else {
        lemma_hex_text_props(n / 16);
        let x = hex_text(n / 16);
        let c = hex_digit_char(n % 16);
        let t = x + seq![c];
        assert(t.drop_last() =~= x);
        assert(t.last() == c);
        assert(is_hex_digit(c));
        assert(hex_digit_val(c) == n % 16);
        assert(hex_val(t) == 16 * hex_val(x) + (n % 16));
    }
}

/// The group texts of `g[lo..hi]`, as the colon-split will list them.
pub open spec fn hex_pieces(g: Seq<u16>, lo: int, hi: int) -> Seq<Seq<char>> {
    Seq::new((hi - lo) as nat, |i: int| hex_text(g[lo + i] as int))
}

/// Splitting a joined range followed by a colon and a tail yields the
/// range's group texts followed by the split of the tail.
proof fn lemma_hex_join_split_with(g: Seq<u16>, lo: int, hi: int, t: Seq<char>)
    requires
        0 <= lo < hi <= g.len(),
    ensures
        split_on(hex_join(g, lo, hi) + seq![':'] + t, ':') == hex_pieces(g, lo, hi) + split_on(
            t,
            ':',
        ),
    decreases hi - lo,
{
    lemma_hex_text_props(g[lo] as int);
    let x = hex_text(g[lo] as int);
    assert(forall|j: int| 0 <= j < x.len() ==> x[j] != ':') by {
        assert(!is_hex_digit(':'));
    }
    if hi == lo + 1 {
        lemma_split_on_concat(x, t, ':');
        assert(hex_pieces(g, lo, hi) =~= seq![x]);
        assert(split_on(hex_join(g, lo, hi) + seq![':'] + t, ':') =~= hex_pieces(g, lo, hi)
            + split_on(t, ':'));
    } else {
        let rest = hex_join(g, lo + 1, hi) + seq![':'] + t;
        assert(hex_join(g, lo, hi) + seq![':'] + t =~= x + seq![':'] + rest);
        lemma_split_on_concat(x, rest, ':');
        lemma_hex_join_split_with(g, lo + 1, hi, t);
        assert(hex_pieces(g, lo, hi) =~= seq![x] + hex_pieces(g, lo + 1, hi));
        assert(split_on(hex_join(g, lo, hi) + seq![':'] + t, ':') =~= hex_pieces(g, lo, hi)
            + split_on(t, ':'));
    }
}

/// Splitting a joined range alone yields exactly its group texts.
proof fn lemma_hex_join_split(g: Seq<u16>, lo: int, hi: int)
    requires
        0 <= lo < hi <= g.len(),
    ensures
        split_on(hex_join(g, lo, hi), ':') == hex_pieces(g, lo, hi),
    decreases hi - lo,
{
    lemma_hex_text_props(g[lo] as int);
    let x = hex_text(g[lo] as int);
    assert(forall|j: int| 0 <= j < x.len() ==> x[j] != ':') by {
        assert(!is_hex_digit(':'));
    }
    if hi == lo + 1 {
        lemma_split_on_no_sep(x, ':');
        assert(hex_pieces(g, lo, hi) =~= seq![x]);
    } else {
        lemma_split_on_concat(x, hex_join(g, lo + 1, hi), ':');
        lemma_hex_join_split(g, lo + 1, hi);
        assert(hex_pieces(g, lo, hi) =~= seq![x] + hex_pieces(g, lo + 1, hi));
        assert(split_on(hex_join(g, lo, hi), ':') =~= hex_pieces(g, lo, hi));
    }
}

/// The group texts of a range are nonempty hexadecimal groups with the
/// range's values.
proof fn lemma_hex_pieces_props(g: Seq<u16>, lo: int, hi: int)
    requires
        0 <= lo <= hi <= g.len(),
    ensures
        forall|i: int| 0 <= i < hi - lo ==> {
            &&& (#[trigger] hex_pieces(g, lo, hi)[i]).len() != 0
            &&& is_hex_group(hex_pieces(g, lo, hi)[i])
            &&& hex_val(hex_pieces(g, lo, hi)[i]) == g[lo + i]
        },
{
    assert forall|i: int| 0 <= i < hi - lo implies {
        &&& (#[trigger] hex_pieces(g, lo, hi)[i]).len() != 0
        &&& is_hex_group(hex_pieces(g, lo, hi)[i])
        &&& hex_val(hex_pieces(g, lo, hi)[i]) == g[lo + i]
    } by {
        lemma_hex_text_props(g[lo + i] as int);
    }
}

/// The standard text of an IPv6 address: the mixed dotted form for an
/// IPv4-mapped address; otherwise the eight groups in lowercase
/// hexadecimal, with the leftmost longest run of at least two zero
/// groups compressed to `::`.
pub open spec fn ipv6_text_of(a: Ipv6Address) -> Seq<char> {
    let g = a.segments@;
    if is_ipv4_mapped(a) {
        seq![':', ':', 'f', 'f', 'f', 'f', ':'] + ipv4_text_of(mapped_ipv4(a))
    } else {
        let br = best_run_from(g, 0);
        if br.1 >= 2 {
            hex_join(g, 0, br.0) + seq![':', ':'] + hex_join(g, br.0 + br.1, 8)
        } else {
            hex_join(g, 0, 8)
        }
    }
}

/// A zero run lies within the groups and covers only zeros.
proof fn lemma_zrun_props(g: Seq<u16>, i: int)
    requires
        0 <= i <= g.len(),
    ensures
        0 <= zrun_at(g, i),
        i + zrun_at(g, i) <= g.len(),
        forall|j: int| i <= j < i + zrun_at(g, i) ==> g[j] == 0,
    decreases g.len() - i,
{
    if i < g.len() && g[i] == 0 {
        lemma_zrun_props(g, i + 1);
    }
}

/// The best run starts at a real position and is the zero run there.
proof fn lemma_best_run_props(g: Seq<u16>, i: int)
    requires
        0 <= i <= g.len(),
    ensures
        i <= best_run_from(g, i).0 <= g.len(),
        best_run_from(g, i).1 == zrun_at(g, best_run_from(g, i).0),
    decreases g.len() - i,
{
    if i < g.len() {
        lemma_best_run_props(g, i + 1);
    }
}

/// The dotted-decimal text of an IPv4 address holds no colon.
proof fn lemma_ipv4_text_colon_free(a: Ipv4Address)
    ensures
        forall|j: int| 0 <= j < ipv4_text_of(a).len() ==> ipv4_text_of(a)[j] != ':',
        ipv4_text_of(a).len() != 0,
{
    lemma_dec_text_props(a.octets[0] as int);
    lemma_dec_text_props(a.octets[1] as int);
    lemma_dec_text_props(a.octets[2] as int);
    lemma_dec_text_props(a.octets[3] as int);
    assert(!is_dec_digit(':'));
}

/// The length of the zero run starting at group `i`.
fn zero_run_len(a: &Ipv6Address, i: usize) -> (l: usize)
    requires
        i <= 8,
    ensures
        l as int == zrun_at(a.segments@, i as int),
        i + l <= 8,
{
    let ghost g = a.segments@;
    let mut j = i;
    while j < 8
        invariant
            i <= j <= 8,
            g == a.segments@,
            g.len() == 8,
            zrun_at(g, i as int) == (j - i) + zrun_at(g, j as int),
        decreases 8 - j,
    {
        if a.segments[j] != 0 {
            proof {
                assert(zrun_at(g, j as int) == 0);
            }
            return j - i;
        }
        j = j + 1;
    }
    proof {
        assert(zrun_at(g, 8) == 0);
    }
    j - i
}

/// The leftmost longest run of zero groups.
fn best_zero_run(a: &Ipv6Address) -> (r: (usize, usize))
    ensures
        r.0 as int == best_run_from(a.segments@, 0).0,
        r.1 as int == best_run_from(a.segments@, 0).1,
        r.0 + r.1 <= 8,
{
    let ghost g = a.segments@;
    let mut bs: usize = 8;
    let mut bl: usize = 0;
    let mut i: usize = 8;
    while i > 0
        invariant
            i <= 8,
            g == a.segments@,
            g.len() == 8,
            bs as int == best_run_from(g, i as int).0,
            bl as int == best_run_from(g, i as int).1,
            bs + bl <= 8,
        decreases i,
    {
        i = i - 1;
        let l = zero_run_len(a, i);
        if l >= bl {
            bs = i;
            bl = l;
        }
    }
    (bs, bl)
}

/// Append the groups `a.segments[lo..hi]` joined with colons.
fn push_hex_join(out: &mut String, a: &Ipv6Address, lo: usize, hi: usize)
    requires
        lo <= hi <= 8,
    ensures
        final(out)@ == old(out)@ + hex_join(a.segments@, lo as int, hi as int),
{
    let ghost g = a.segments@;
    let mut k = lo;
    while k < hi
        invariant
            lo <= k <= hi <= 8,
            g == a.segments@,
            g.len() == 8,
            out@ == old(out)@ + hex_join(g, lo as int, k as int),
        decreases hi - k,
    {
        if k > lo {
            proof {
                reveal_strlit(":");
            }
            out.append(":");
            proof {
                assert(":"@ =~= seq![':']);
            }
        }
        push_hex(out, a.segments[k]);
        proof {
            lemma_hex_join_snoc(g, lo as int, k as int);
            assert(out@ =~= old(out)@ + hex_join(g, lo as int, k + 1));
        }
        k = k + 1;
    }
}

/// The standard text of an IPv6 address.
pub fn ipv6_to_text(a: &Ipv6Address) -> (r: String)
    ensures
        r@ == ipv6_text_of(*a),
{
    if a.is_ipv4_mapped() {
        let mut out = String::new();
        proof {
            reveal_strlit("::ffff:");
        }
        out.append("::ffff:");
        proof {
            assert(out@ =~= seq![':', ':', 'f', 'f', 'f', 'f', ':']);
        }
        let v4 = a.to_mapped_ipv4();
        push_ipv4(&mut out, &v4);
        out
    } else {
        let (bs, bl) = best_zero_run(a);
        let mut out = String::new();
        if bl >= 2 {
            push_hex_join(&mut out, a, 0, bs);
            proof {
                reveal_strlit("::");
            }
            out.append("::");
            push_hex_join(&mut out, a, bs + bl, 8);
            proof {
                assert("::"@ =~= seq![':', ':']);
                assert(out@ =~= ipv6_text_of(*a));
            }
        } else {
            push_hex_join(&mut out, a, 0, 8);
            proof {
                assert(out@ =~= ipv6_text_of(*a));
            }
        }
        out
    }
}

/// The mixed dotted text of an IPv4-mapped address reads back as its
/// eight groups.
proof fn lemma_mapped_text_roundtrip(a: Ipv6Address)
    requires
        is_ipv4_mapped(a),
    ensures
        spec_ipv6_groups(ipv6_text_of(a)) == Some(a.segments@),
{
    broadcast use vstd::array::group_array_axioms;

    let g = a.segments@;
    let v4 = mapped_ipv4(a);
    let v4t = ipv4_text_of(v4);
    let s4 = seq!['f', 'f', 'f', 'f'];
    let s = ipv6_text_of(a);
    let e = Seq::<char>::empty();

    // the pieces of the text: "", "", "ffff", and the dotted quad
    lemma_ipv4_text_colon_free(v4);
    lemma_split_on_no_sep(v4t, ':');
    assert(forall|j: int| 0 <= j < s4.len() ==> is_hex_digit(#[trigger] s4[j]));
    assert(forall|j: int| 0 <= j < s4.len() ==> s4[j] != ':') by {
        assert(!is_hex_digit(':'));
    }
    let r2 = s4 + seq![':'] + v4t;
    lemma_split_on_concat(s4, v4t, ':');
    let r1 = seq![':'] + r2;
    assert(r1 =~= e + seq![':'] + r2);
    lemma_split_on_concat(e, r2, ':');
    assert(s =~= e + seq![':'] + r1);
    lemma_split_on_concat(e, r1, ':');
    let ps = split_on(s, ':');
    assert(ps =~= seq![e, e, s4, v4t]);

    // the shape: a leading `::`, then one group and the dotted quad
    assert(!pieces_nonempty(ps, 0, 4));
    assert(v4t.len() != 0);
    assert(pieces_nonempty(ps, 2, 4));
    assert(compressed_bounds(ps) == Some((0int, 2int)));
    assert(is_hex_group(s4));
    lemma_ipv4_text_roundtrip(v4);
    assert(tail_ok(ps, 2, 4));
    assert(tail_word_count(ps, 2, 4) == 3);

    // the groups: five zeros, 0xffff, and the two mapped groups
    reveal_with_fuel(hex_val, 5);
    assert(s4.drop_last() =~= seq!['f', 'f', 'f']);
    assert(seq!['f', 'f', 'f'].drop_last() =~= seq!['f', 'f']);
    assert(seq!['f', 'f'].drop_last() =~= seq!['f']);
    assert(seq!['f'].drop_last() =~= Seq::<char>::empty());
    assert(hex_val(s4) == 0xffff);
    assert(ipv4_value(v4t) == v4);
    assert(crate::ip_parse::v4_groups(v4) =~= seq![g[6], g[7]]);
    let groups = group_vals(ps, 0, 0) + zero_groups(8 - 3) + tail_vals(ps, 2, 4);
    assert(groups =~= g);
    assert(spec_ipv6_groups(s) == Some(groups));
}

/// The full eight-group text reads back as its eight groups.
proof fn lemma_uncompressed_text_roundtrip(a: Ipv6Address)
    requires
        !is_ipv4_mapped(a),
        best_run_from(a.segments@, 0).1 < 2,
    ensures
        spec_ipv6_groups(ipv6_text_of(a)) == Some(a.segments@),
{
    broadcast use vstd::array::group_array_axioms;

    let g = a.segments@;
    let s = ipv6_text_of(a);
    assert(s == hex_join(g, 0, 8));
    lemma_hex_join_split(g, 0, 8);
    let ps = split_on(s, ':');
    assert(ps == hex_pieces(g, 0, 8));
    lemma_hex_pieces_props(g, 0, 8);
    assert(pieces_nonempty(ps, 0, 8));
    assert(crate::ip_parse::all_hex_groups(ps, 0, 8));
    assert(group_vals(ps, 0, 8) =~= g);
    assert(spec_ipv6_groups(s) == Some(group_vals(ps, 0, 8)));
}

/// The compressed text reads back as its eight groups.
#[verifier::rlimit(100)]
proof fn lemma_compressed_text_roundtrip(a: Ipv6Address)
    requires
        !is_ipv4_mapped(a),
        best_run_from(a.segments@, 0).1 >= 2,
    ensures
        spec_ipv6_groups(ipv6_text_of(a)) == Some(a.segments@),
{
    broadcast use vstd::array::group_array_axioms;

    let g = a.segments@;
    let br = best_run_from(g, 0);
    let bs = br.0;
    let bl = br.1;
    lemma_best_run_props(g, 0);
    lemma_zrun_props(g, bs);
    let m = 8 - bs - bl;
    let e = Seq::<char>::empty();
    let s = ipv6_text_of(a);
    assert(s == hex_join(g, 0, bs) + seq![':', ':'] + hex_join(g, bs + bl, 8));
    if bs == 0 && m == 0 {
        // the whole address is zero: the text is `::`
        assert(s =~= e + seq![':'] + (e + seq![':'] + e));
        lemma_split_on_concat(e, e, ':');
        lemma_split_on_no_sep(e, ':');
        lemma_split_on_concat(e, e + seq![':'] + e, ':');
        let ps = split_on(s, ':');
        assert(ps =~= seq![e, e, e]);
        assert(!pieces_nonempty(ps, 0, 3));
        assert(compressed_bounds(ps) == Some((0int, 3int)));
        assert(tail_ok(ps, 3, 3));
        let groups = group_vals(ps, 0, 0) + zero_groups(8) + tail_vals(ps, 3, 3);
        assert(groups =~= g);
        assert(spec_ipv6_groups(s) == Some(groups));
    } else if bs == 0 {
        // the text starts with `::`
        let hj2 = hex_join(g, bl, 8);
        assert(s =~= e + seq![':'] + (e + seq![':'] + hj2));
        lemma_hex_join_split(g, bl, 8);
        lemma_split_on_concat(e, hj2, ':');
        lemma_split_on_concat(e, e + seq![':'] + hj2, ':');
        let ps = split_on(s, ':');
        assert(ps =~= seq![e, e] + hex_pieces(g, bl, 8));
        let n = m + 2;
        assert(ps.len() == n);
        lemma_hex_pieces_props(g, bl, 8);
        assert(forall|i: int| 2 <= i < n ==> #[trigger] ps[i] == hex_pieces(g, bl, 8)[i - 2]);
        assert(pieces_nonempty(ps, 2, n as int));
        assert(!pieces_nonempty(ps, 0, n as int));
        assert(compressed_bounds(ps) == Some((0int, 2int)));
        assert(crate::ip_parse::all_hex_groups(ps, 2, n - 1));
        assert(is_hex_group(ps[n - 1]));
        lemma_hex_group_not_ipv4(ps[n - 1]);
        assert(tail_ok(ps, 2, n as int));
        assert(tail_word_count(ps, 2, n as int) == m);
        assert(tail_vals(ps, 2, n as int) == group_vals(ps, 2, n as int));
        let groups = group_vals(ps, 0, 0) + zero_groups(8 - m) + group_vals(ps, 2, n as int);
        assert(groups =~= g);
        assert(spec_ipv6_groups(s) == Some(groups));
    } else if m == 0 {
        // the text ends with `::`
        let hj1 = hex_join(g, 0, bs);
        assert(hex_join(g, bs + bl, 8) =~= e);
        assert(s =~= hj1 + seq![':'] + seq![':']);
        assert(seq![':'] =~= e + seq![':'] + e);
        lemma_split_on_concat(e, e, ':');
        lemma_split_on_no_sep(e, ':');
        lemma_hex_join_split_with(g, 0, bs, seq![':']);
        let ps = split_on(s, ':');
        assert(ps =~= hex_pieces(g, 0, bs) + seq![e, e]);
        let n = bs + 2;
        assert(ps.len() == n);
        lemma_hex_pieces_props(g, 0, bs);
        assert(forall|i: int| 0 <= i < bs ==> #[trigger] ps[i] == hex_pieces(g, 0, bs)[i]);
        assert(pieces_nonempty(ps, 0, bs));
        assert(ps[n - 1].len() == 0);
        assert(!pieces_nonempty(ps, 0, n as int));
        assert(compressed_bounds(ps) == Some((bs, n as int)));
        assert(crate::ip_parse::all_hex_groups(ps, 0, bs));
        assert(tail_ok(ps, n as int, n as int));
        assert(tail_word_count(ps, n as int, n as int) == 0);
        let groups = group_vals(ps, 0, bs) + zero_groups(8 - bs) + tail_vals(
            ps,
            n as int,
            n as int,
        );
        assert(groups =~= g);
        assert(spec_ipv6_groups(s) == Some(groups));
    } else {
        // a `::` between two joined ranges
        let hj1 = hex_join(g, 0, bs);
        let hj2 = hex_join(g, bs + bl, 8);
        assert(s =~= hj1 + seq![':'] + (e + seq![':'] + hj2));
        lemma_hex_join_split(g, bs + bl, 8);
        lemma_split_on_concat(e, hj2, ':');
        lemma_hex_join_split_with(g, 0, bs, e + seq![':'] + hj2);
        let ps = split_on(s, ':');
        assert(ps =~= hex_pieces(g, 0, bs) + seq![e] + hex_pieces(g, bs + bl, 8));
        let n = bs + 1 + m;
        assert(ps.len() == n);
        lemma_hex_pieces_props(g, 0, bs);
        lemma_hex_pieces_props(g, bs + bl, 8);
        assert(forall|i: int| 0 <= i < bs ==> #[trigger] ps[i] == hex_pieces(g, 0, bs)[i]);
        assert(forall|i: int| bs + 1 <= i < n ==> #[trigger] ps[i] == hex_pieces(
            g,
            bs + bl,
            8,
        )[i - bs - 1]);
        assert(ps[bs].len() == 0);
        assert(pieces_nonempty(ps, 0, bs));
        assert(pieces_nonempty(ps, bs + 1, n as int));
        assert(!pieces_nonempty(ps, 0, n as int));
        lemma_first_empty_is(ps, bs);
        assert(ps[0].len() != 0);
        assert(ps[n - 1].len() != 0);
        assert(compressed_bounds(ps) == Some((bs, bs + 1)));
        assert(crate::ip_parse::all_hex_groups(ps, 0, bs));
        assert(crate::ip_parse::all_hex_groups(ps, bs + 1, n - 1));
        assert(is_hex_group(ps[n - 1]));
        lemma_hex_group_not_ipv4(ps[n - 1]);
        assert(tail_ok(ps, bs + 1, n as int));
        assert(tail_word_count(ps, bs + 1, n as int) == m);
        assert(tail_vals(ps, bs + 1, n as int) == group_vals(ps, bs + 1, n as int));
        let groups = group_vals(ps, 0, bs) + zero_groups(bl) + group_vals(ps, bs + 1, n as int);
        assert(groups =~= g);
        assert(spec_ipv6_groups(s) == Some(groups));
    }
}

/// Law: formatting an IPv6 address and parsing the text back returns
/// the address.
pub proof fn lemma_ipv6_text_roundtrip(a: Ipv6Address)
    ensures
        is_ipv6_text(ipv6_text_of(a)),
        ipv6_value(ipv6_text_of(a)) == a,
{
    broadcast use vstd::array::group_array_axioms;

    let g = a.segments@;
    assert(g.len() == 8);
    if is_ipv4_mapped(a) {
        lemma_mapped_text_roundtrip(a);
    } else {
        lemma_best_run_props(g, 0);
        if best_run_from(g, 0).1 >= 2 {
            lemma_compressed_text_roundtrip(a);
        } else {
            lemma_uncompressed_text_roundtrip(a);
        }
    }
    assert(ipv6_from_groups(g).segments =~= a.segments);
}

/// The text of an address of either family.
pub open spec fn ip_text_of(ip: IpAddress) -> Seq<char> {
    match ip {
        IpAddress::V4(a) => ipv4_text_of(a),
        IpAddress::V6(a) => ipv6_text_of(a),
    }
}

/// The text of an address of either family.
pub fn ip_to_text(ip: &IpAddress) -> (r: String)
    ensures
        r@ == ip_text_of(*ip),
{
    match ip {
        IpAddress::V4(a) => ipv4_to_text(a),
        IpAddress::V6(a) => ipv6_to_text(a),
    }
}

} // verus!
