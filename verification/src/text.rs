//! Character-level building blocks for the address grammars: decimal
//! and hexadecimal digits, the value of a digit string, and splitting
//! a string on a separator character.

use vstd::prelude::*;

verus! {

/// A decimal digit `'0'..='9'`.
pub open spec fn is_dec_digit(c: char) -> bool {
    '0' as int <= c as int <= '9' as int
}

/// The value of a decimal digit.
pub open spec fn dec_digit_val(c: char) -> int {
    c as int - '0' as int
}

/// A hexadecimal digit, either case.
pub open spec fn is_hex_digit(c: char) -> bool {
    ||| is_dec_digit(c)
    ||| 'a' as int <= c as int <= 'f' as int
    ||| 'A' as int <= c as int <= 'F' as int
}

/// The value of a hexadecimal digit.
pub open spec fn hex_digit_val(c: char) -> int {
    if is_dec_digit(c) {
        c as int - '0' as int
    } else if 'a' as int <= c as int <= 'f' as int {
        c as int - 'a' as int + 10
    } else {
        c as int - 'A' as int + 10
    }
}

/// Every character of `s` is a decimal digit.
pub open spec fn all_dec_digits(s: Seq<char>) -> bool {
    forall|i: int| 0 <= i < s.len() ==> is_dec_digit(#[trigger] s[i])
}

/// Every character of `s` is a hexadecimal digit.
pub open spec fn all_hex_digits(s: Seq<char>) -> bool {
    forall|i: int| 0 <= i < s.len() ==> is_hex_digit(#[trigger] s[i])
}

/// The value of a decimal digit string, most significant digit first.
pub open spec fn dec_val(s: Seq<char>) -> int
    decreases s.len(),
{
    if s.len() == 0 {
        0
    } else {
        10 * dec_val(s.drop_last()) + dec_digit_val(s.last())
    }
}

/// The value of a hexadecimal digit string, most significant first.
pub open spec fn hex_val(s: Seq<char>) -> int
    decreases s.len(),
{
    if s.len() == 0 {
        0
    } else {
        16 * hex_val(s.drop_last()) + hex_digit_val(s.last())
    }
}

/// A decimal digit string of up to three digits stays below 1000.
pub proof fn lemma_dec_val_bounds(s: Seq<char>)
    requires
        all_dec_digits(s),
    ensures
        0 <= dec_val(s),
        s.len() <= 1 ==> dec_val(s) <= 9,
        s.len() <= 2 ==> dec_val(s) <= 99,
        s.len() <= 3 ==> dec_val(s) <= 999,
    decreases s.len(),
{
    if s.len() > 0 {
        assert(all_dec_digits(s.drop_last())) by {
            assert(forall|i: int|
                0 <= i < s.len() - 1 ==> s.drop_last()[i] == #[trigger] s[i]);
        }
        lemma_dec_val_bounds(s.drop_last());
    }
}

/// A hexadecimal digit string of up to four digits fits in 16 bits.
pub proof fn lemma_hex_val_bounds(s: Seq<char>)
    requires
        all_hex_digits(s),
    ensures
        0 <= hex_val(s),
        s.len() <= 4 ==> hex_val(s) <= 0xffff,
        s.len() <= 3 ==> hex_val(s) <= 0xfff,
        s.len() <= 2 ==> hex_val(s) <= 0xff,
        s.len() <= 1 ==> hex_val(s) <= 0xf,
    decreases s.len(),
{
    if s.len() > 0 {
        assert(all_hex_digits(s.drop_last())) by {
            assert(forall|i: int|
                0 <= i < s.len() - 1 ==> s.drop_last()[i] == #[trigger] s[i]);
        }
        lemma_hex_val_bounds(s.drop_last());
    }
}

/// The value of `c` as a decimal digit, or `None` when it is not one.
pub fn dec_digit_of(c: char) -> (r: Option<u8>)
    ensures
        match r {
            Some(v) => is_dec_digit(c) && v as int == dec_digit_val(c),
            None => !is_dec_digit(c),
        },
{
    let u = c as u32;
    if ('0' as u32) <= u && u <= ('9' as u32) {
        Some((u - ('0' as u32)) as u8)
    } else {
        None
    }
}

/// The value of `c` as a hexadecimal digit, or `None` when it is not one.
pub fn hex_digit_of(c: char) -> (r: Option<u8>)
    ensures
        match r {
            Some(v) => is_hex_digit(c) && v as int == hex_digit_val(c),
            None => !is_hex_digit(c),
        },
{
    let u = c as u32;
    if ('0' as u32) <= u && u <= ('9' as u32) {
        Some((u - ('0' as u32)) as u8)
    } else if ('a' as u32) <= u && u <= ('f' as u32) {
        Some((u - ('a' as u32) + 10) as u8)
    } else if ('A' as u32) <= u && u <= ('F' as u32) {
        Some((u - ('A' as u32) + 10) as u8)
    } else {
        None
    }
}

/// The index of the first occurrence of `sep` in `s`, or `s.len()`
/// when there is none.
pub open spec fn first_sep(s: Seq<char>, sep: char) -> int
    decreases s.len(),
{
    if s.len() == 0 {
        0
    } else if s[0] == sep {
        0
    } else {
        1 + first_sep(s.drop_first(), sep)
    }
}

/// `s` split on `sep`: the maximal separator-free pieces, in order.
/// Adjacent separators and separators at either end yield empty pieces.
pub open spec fn split_on(s: Seq<char>, sep: char) -> Seq<Seq<char>>
    decreases s.len(),
{
    let i = first_sep(s, sep);
    if 0 <= i < s.len() {
        seq![s.take(i)] + split_on(s.skip(i + 1), sep)
    } else {
        seq![s]
    }
}

/// `first_sep` points at the first separator: if everything before `k`
/// is not `sep` and `k` is a separator (or the end), `first_sep` is `k`.
pub proof fn lemma_first_sep_is(s: Seq<char>, sep: char, k: int)
    requires
        0 <= k <= s.len(),
        forall|j: int| 0 <= j < k ==> s[j] != sep,
        k < s.len() ==> s[k] == sep,
    ensures
        first_sep(s, sep) == k,
    decreases s.len(),
{
    if k == 0 {
    } else {
        let t = s.drop_first();
        assert(forall|j: int| 0 <= j < k - 1 ==> t[j] == #[trigger] s[j + 1]);
        lemma_first_sep_is(t, sep, k - 1);
    }
}

/// Splitting a separator-free string yields that one piece.
pub proof fn lemma_split_on_no_sep(s: Seq<char>, sep: char)
    requires
        forall|j: int| 0 <= j < s.len() ==> s[j] != sep,
    ensures
        split_on(s, sep) == seq![s],
{
    lemma_first_sep_is(s, sep, s.len() as int);
}

/// Splitting `x + sep + y` for separator-free `x` yields `x` followed
/// by the split of `y`.
pub proof fn lemma_split_on_concat(x: Seq<char>, y: Seq<char>, sep: char)
    requires
        forall|j: int| 0 <= j < x.len() ==> x[j] != sep,
    ensures
        split_on(x + seq![sep] + y, sep) == seq![x] + split_on(y, sep),
{
    let s = x + seq![sep] + y;
    assert(forall|j: int| 0 <= j < x.len() ==> s[j] == #[trigger] x[j]);
    assert(s[x.len() as int] == sep);
    lemma_first_sep_is(s, sep, x.len() as int);
    assert(s.take(x.len() as int) =~= x);
    assert(s.skip(x.len() as int + 1) =~= y);
}

/// The pieces of `s` named by a list of index ranges.
pub open spec fn pieces_of(s: Seq<char>, rs: Seq<(usize, usize)>) -> Seq<Seq<char>> {
    Seq::new(rs.len(), |i: int| s.subrange(rs[i].0 as int, rs[i].1 as int))
}

/// Split `s[from..to]` on `sep`, returning the index range of each
/// piece in `s`.
pub fn split_ranges(s: &str, from: usize, to: usize, sep: char) -> (r: Vec<(usize, usize)>)
    requires
        from <= to <= s@.len(),
    ensures
        pieces_of(s@, r@) == split_on(s@.subrange(from as int, to as int), sep),
        r@.len() >= 1,
        forall|i: int| 0 <= i < r@.len()
            ==> from <= (#[trigger] r@[i]).0 <= r@[i].1 <= to,
{
    let ghost t = s@.subrange(from as int, to as int);
    let mut r: Vec<(usize, usize)> = Vec::new();
    let mut start: usize = from;
    let mut i: usize = from;
    while i < to
        invariant
            from <= start <= i <= to <= s@.len(),
            forall|j: int| start <= j < i ==> s@[j] != sep,
            forall|k: int| 0 <= k < r@.len()
                ==> from <= (#[trigger] r@[k]).0 <= r@[k].1 <= to,
            t == s@.subrange(from as int, to as int),
            split_on(t, sep) == pieces_of(s@, r@)
                + split_on(s@.subrange(start as int, to as int), sep),
        decreases to - i,
    {
        let c = s.get_char(i);
        if c == sep {
            proof {
                let rest = s@.subrange(start as int, to as int);
                assert(forall|j: int| 0 <= j < i - start
                    ==> rest[j] == #[trigger] s@[j + start]);
                lemma_first_sep_is(rest, sep, i - start);
                assert(rest.take(i - start) =~= s@.subrange(start as int, i as int));
                assert(rest.skip(i - start + 1) =~= s@.subrange(i + 1, to as int));
                assert(pieces_of(s@, r@.push((start, i)))
                    =~= pieces_of(s@, r@) + seq![s@.subrange(start as int, i as int)]);
            }
            r.push((start, i));
            start = i + 1;
        }
        i = i + 1;
    }
    proof {
        let rest = s@.subrange(start as int, to as int);
        assert(forall|j: int| 0 <= j < to - start
            ==> rest[j] == #[trigger] s@[j + start]);
        lemma_first_sep_is(rest, sep, to - start);
        assert(pieces_of(s@, r@.push((start, to)))
            =~= pieces_of(s@, r@) + seq![s@.subrange(start as int, to as int)]);
    }
    r.push((start, to));
    r
}

} // verus!
