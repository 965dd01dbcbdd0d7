//! The textual grammar of IP address literals.
//!
//! The agent treats addresses as text: a cache file seeds the known-good
//! state only when its content is a valid IP literal, and the body the
//! IPv4 echo service returns becomes a candidate only when it is one.
//! This module defines the grammar as specification functions over
//! character sequences, and verified checkers that decide it.
//!
//! An IPv4 literal is four decimal octets joined by `.`, each `0..=255`
//! with no leading zero.  An IPv6 literal is up to eight groups of one
//! to four hexadecimal digits joined by `:`, with at most one `::`
//! standing for one or more zero groups, and optionally an embedded
//! IPv4 literal in place of the last two groups.

use vstd::prelude::*;

verus! {

/// Whether `c` is a decimal digit.
pub open spec fn is_digit(c: char) -> bool {
    48 <= c as int <= 57
}

/// The numeric value of a decimal digit.
pub open spec fn digit_val(c: char) -> int {
    c as int - 48
}

/// The number a sequence of decimal digits denotes.
pub open spec fn dec_value(s: Seq<char>) -> int
    decreases s.len(),
{
    if s.len() == 0 {
        0
    } else {
        dec_value(s.drop_last()) * 10 + digit_val(s.last())
    }
}

/// Whether `c` is a hexadecimal digit, either case.
pub open spec fn is_hex_digit(c: char) -> bool {
    (48 <= c as int <= 57) || (97 <= c as int <= 102) || (65 <= c as int <= 70)
}

/// The input cut at every occurrence of `sep`.  Splitting the empty
/// sequence yields one empty piece, so the result always holds one
/// piece more than the input holds separators.
pub open spec fn split_on(s: Seq<char>, sep: char) -> Seq<Seq<char>>
    decreases s.len(),
{
    if s.len() == 0 {
        seq![Seq::empty()]
    } else {
        let rest = split_on(s.drop_first(), sep);
        if s[0] == sep {
            seq![Seq::<char>::empty()] + rest
        } else {
            seq![seq![s[0]] + rest[0]] + rest.drop_first()
        }
    }
}

proof fn lemma_split_len(s: Seq<char>, sep: char)
    ensures
        split_on(s, sep).len() >= 1,
    decreases s.len(),
{
    if s.len() > 0 {
        lemma_split_len(s.drop_first(), sep);
    }
}

proof fn lemma_split_push(s: Seq<char>, sep: char, x: char)
    ensures
        x == sep ==> split_on(s.push(x), sep) == split_on(s, sep).push(Seq::<char>::empty()),
        x != sep ==> split_on(s.push(x), sep) == split_on(s, sep).update(
            split_on(s, sep).len() - 1,
            split_on(s, sep).last().push(x),
        ),
    decreases s.len(),
{
    let ps = split_on(s, sep);
    lemma_split_len(s, sep);
    if s.len() == 0 {
        assert(s.push(x).len() == 1);
        assert(s.push(x)[0] == x);
        assert(s.push(x).drop_first() =~= Seq::<char>::empty());
        assert(split_on(Seq::<char>::empty(), sep) == seq![Seq::<char>::empty()]);
        if x == sep {
            assert(split_on(s.push(x), sep) =~~= ps.push(Seq::<char>::empty()));
        } else {
            assert(seq![s.push(x)[0]] + split_on(Seq::<char>::empty(), sep)[0] =~= seq![x]);
            assert(ps.last().push(x) =~= seq![x]);
            assert(split_on(s.push(x), sep) =~~= ps.update(0, ps.last().push(x)));
        }
    } else {
        let t = s.drop_first();
        let rest = split_on(t, sep);
        let rest2 = split_on(t.push(x), sep);
        lemma_split_len(t, sep);
        lemma_split_push(t, sep, x);
        assert(s.push(x)[0] == s[0]);
        assert(s.push(x).drop_first() =~= t.push(x));
        assert(s.push(x).len() == s.len() + 1);
        if s[0] == sep {
            assert(split_on(s.push(x), sep) == seq![Seq::<char>::empty()] + rest2);
            if x == sep {
                assert(seq![Seq::<char>::empty()] + rest.push(Seq::<char>::empty()) =~~= (
                seq![Seq::<char>::empty()] + rest).push(Seq::<char>::empty()));
            } else {
                assert(ps.len() - 1 == rest.len());
                assert(ps.last() == rest.last());
                assert(seq![Seq::<char>::empty()] + rest.update(
                    rest.len() - 1,
                    rest.last().push(x),
                ) =~~= (seq![Seq::<char>::empty()] + rest).update(
                    ps.len() - 1,
                    ps.last().push(x),
                ));
            }
        } else {
            assert(split_on(s.push(x), sep) == seq![seq![s[0]] + rest2[0]] + rest2.drop_first());
            assert(ps == seq![seq![s[0]] + rest[0]] + rest.drop_first());
            if x == sep {
                assert(rest2 == rest.push(Seq::<char>::empty()));
                assert(rest2[0] == rest[0]);
                assert(rest2.drop_first() =~= rest.drop_first().push(Seq::<char>::empty()));
                assert(seq![seq![s[0]] + rest[0]] + rest.drop_first().push(
                    Seq::<char>::empty(),
                ) =~~= ps.push(Seq::<char>::empty()));
            } else {
                assert(rest2 == rest.update(rest.len() - 1, rest.last().push(x)));
                if rest.len() == 1 {
                    assert(rest2[0] == rest[0].push(x));
                    assert(rest2.drop_first() =~= rest.drop_first());
                    assert(rest.drop_first().len() == 0);
                    assert(ps.len() == 1);
                    assert(ps.last() == seq![s[0]] + rest[0]);
                    assert(seq![s[0]] + rest[0].push(x) =~= (seq![s[0]] + rest[0]).push(x));
                    assert(split_on(s.push(x), sep) =~~= ps.update(
                        ps.len() - 1,
                        ps.last().push(x),
                    ));
                } else {
                    assert(rest2[0] == rest[0]);
                    assert(rest2.drop_first() =~= rest.drop_first().update(
                        rest.len() - 2,
                        rest.last().push(x),
                    ));
                    assert(ps.last() == rest.last());
                    assert(seq![seq![s[0]] + rest[0]] + rest.drop_first().update(
                        rest.len() - 2,
                        rest.last().push(x),
                    ) =~~= ps.update(ps.len() - 1, ps.last().push(x)));
                }
            }
        }
    }
}

/// Cuts the input at every occurrence of `sep`, as `split_on` describes.
pub fn split_parts<'a>(s: &'a str, sep: char) -> (parts: Vec<&'a str>)
    ensures
        parts.deep_view() == split_on(s@, sep),
{
    let n = s.unicode_len();
    let mut parts: Vec<&str> = Vec::new();
    let mut start: usize = 0;
    let mut i: usize = 0;
    proof {
        assert(s@.take(0) =~= Seq::<char>::empty());
        assert(split_on(Seq::<char>::empty(), sep) == seq![Seq::<char>::empty()]);
        assert(parts.deep_view().push(s@.subrange(0, 0)) =~~= seq![Seq::<char>::empty()]);
    }
    while i < n
        invariant
            0 <= start <= i <= n,
            n == s@.len(),
            split_on(s@.take(i as int), sep) == parts.deep_view().push(
                s@.subrange(start as int, i as int),
            ),
        decreases n - i,
    {
        let ghost prefix = s@.take(i as int);
        let ghost dv = parts.deep_view();
        proof {
            assert(s@.take(i + 1) =~= prefix.push(s@[i as int]));
            lemma_split_push(prefix, sep, s@[i as int]);
        }
        let c = s.get_char(i);
        if c == sep {
            let piece = s.substring_char(start, i);
            parts.push(piece);
            proof {
                assert(parts.deep_view() =~~= dv.push(piece@));
                let old_split = dv.push(s@.subrange(start as int, i as int));
                assert(split_on(s@.take(i + 1), sep) == old_split.push(Seq::<char>::empty()));
                assert(old_split.push(Seq::<char>::empty()) =~~= parts.deep_view().push(
                    s@.subrange(i + 1, i + 1),
                ));
            }
            start = i + 1;
        } else {
            proof {
                let old_split = dv.push(s@.subrange(start as int, i as int));
                assert(old_split.last() == s@.subrange(start as int, i as int));
                assert(split_on(s@.take(i + 1), sep) == old_split.update(
                    old_split.len() - 1,
                    old_split.last().push(s@[i as int]),
                ));
                assert(s@.subrange(start as int, i as int).push(s@[i as int]) =~= s@.subrange(
                    start as int,
                    i + 1,
                ));
                assert(old_split.update(old_split.len() - 1, old_split.last().push(s@[i as int]))
                    =~~= dv.push(s@.subrange(start as int, i + 1)));
            }
        }
        i = i + 1;
    }
    let ghost dv = parts.deep_view();
    let piece = s.substring_char(start, n);
    parts.push(piece);
    proof {
        assert(s@.take(n as int) =~= s@);
        assert(parts.deep_view() =~~= dv.push(piece@));
    }
    parts
}

/// Whether the piece is a decimal octet: one to three digits, value at
/// most 255, and no leading zero.
pub open spec fn is_dec_octet(s: Seq<char>) -> bool {
    &&& 1 <= s.len() <= 3
    &&& forall|i: int| 0 <= i < s.len() ==> is_digit(s[i])
    &&& s.len() > 1 ==> s[0] != '0'
    &&& dec_value(s) <= 255
}

fn check_dec_octet(p: &str) -> (r: bool)
    ensures
        r == is_dec_octet(p@),
{
    let n = p.unicode_len();
    if n < 1 || n > 3 {
        return false;
    }
    if n > 1 && p.get_char(0) == '0' {
        return false;
    }
    let mut val: u32 = 0;
    let mut i: usize = 0;
    while i < n
        invariant
            0 <= i <= n,
            1 <= n <= 3,
            n == p@.len(),
            forall|k: int| 0 <= k < i ==> is_digit(p@[k]),
            val == dec_value(p@.take(i as int)),
            i == 0 ==> val == 0,
            i == 1 ==> val <= 9,
            i == 2 ==> val <= 99,
            i == 3 ==> val <= 999,
        decreases n - i,
    {
        let c = p.get_char(i) as u32;
        if c < 48 || c > 57 {
            return false;
        }
        proof {
            assert(p@.take(i + 1).drop_last() =~= p@.take(i as int));
            assert(p@.take(i + 1).last() == p@[i as int]);
        }
        val = val * 10 + (c - 48);
        i = i + 1;
    }
    proof {
        assert(p@.take(n as int) =~= p@);
    }
    val <= 255
}

/// Whether the input is an IPv4 literal: four decimal octets joined
/// by `.`.
pub open spec fn is_ipv4_literal(s: Seq<char>) -> bool {
    let ps = split_on(s, '.');
    ps.len() == 4 && forall|i: int| 0 <= i < 4 ==> is_dec_octet(ps[i])
}

/// Decides whether the input is an IPv4 literal.
pub fn check_ipv4_literal(s: &str) -> (r: bool)
    ensures
        r == is_ipv4_literal(s@),
{
    let parts = split_parts(s, '.');
    proof {
        assert(parts.deep_view().len() == parts@.len());
    }
    if parts.len() != 4 {
        return false;
    }
    let mut i: usize = 0;
    while i < 4
        invariant
            0 <= i <= 4,
            parts.deep_view() == split_on(s@, '.'),
            parts@.len() == 4,
            forall|k: int| 0 <= k < i ==> is_dec_octet(parts.deep_view()[k]),
        decreases 4 - i,
    {
        proof {
            assert(parts.deep_view()[i as int] == parts@[i as int]@);
        }
        if !check_dec_octet(parts[i]) {
            return false;
        }
        i = i + 1;
    }
    true
}

/// Whether the piece is a group of one to four hexadecimal digits.
pub open spec fn is_h16(s: Seq<char>) -> bool {
    1 <= s.len() <= 4 && forall|i: int| 0 <= i < s.len() ==> is_hex_digit(s[i])
}

fn check_h16(p: &str) -> (r: bool)
    ensures
        r == is_h16(p@),
{
    let n = p.unicode_len();
    if n < 1 || n > 4 {
        return false;
    }
    let mut i: usize = 0;
    while i < n
        invariant
            0 <= i <= n,
            n == p@.len(),
            forall|k: int| 0 <= k < i ==> is_hex_digit(p@[k]),
        decreases n - i,
    {
        let c = p.get_char(i) as u32;
        if !((48 <= c && c <= 57) || (97 <= c && c <= 102) || (65 <= c && c <= 70)) {
            return false;
        }
        i = i + 1;
    }
    true
}

proof fn lemma_ipv4_nonempty(s: Seq<char>)
    requires
        is_ipv4_literal(s),
    ensures
        s.len() > 0,
{
    if s.len() == 0 {
        assert(split_on(s, '.') == seq![Seq::<char>::empty()]);
    }
}

/// Whether the pieces after a `::` close an address: either nothing
/// (one empty piece, from a trailing `::`), or hexadecimal groups with
/// optionally an IPv4 literal as the very last piece.
pub open spec fn tail_ok(ts: Seq<Seq<char>>) -> bool {
    ||| (ts.len() == 1 && ts[0].len() == 0)
    ||| (ts.len() >= 1 && (forall|i: int| 0 <= i < ts.len() - 1 ==> is_h16(ts[i])) && (is_h16(
        ts.last(),
    ) || is_ipv4_literal(ts.last())))
}

/// How many 16-bit groups the pieces after a `::` stand for; an
/// embedded IPv4 literal stands for two.
pub open spec fn tail_groups(ts: Seq<Seq<char>>) -> int {
    if ts.len() == 1 && ts[0].len() == 0 {
        0
    } else if ts.len() >= 1 && is_ipv4_literal(ts.last()) {
        ts.len() + 1 as int
    } else {
        ts.len() as int
    }
}

/// Whether the pieces describe an address compressed with `::`, the
/// first empty piece standing at index `e`.  The `::` must stand for at
/// least one zero group, so at most seven groups may be written out.
pub open spec fn comp_at(ps: Seq<Seq<char>>, e: int) -> bool {
    if e == 0 {
        &&& ps.len() >= 2
        &&& ps[0].len() == 0
        &&& ps[1].len() == 0
        &&& tail_ok(ps.skip(2))
        &&& tail_groups(ps.skip(2)) <= 7
    } else {
        &&& 0 < e < ps.len()
        &&& ps[e].len() == 0
        &&& forall|i: int| 0 <= i < e ==> is_h16(ps[i])
        &&& tail_ok(ps.skip(e + 1))
        &&& e + tail_groups(ps.skip(e + 1)) <= 7
    }
}

/// Whether the pieces describe an address written out in full: eight
/// hexadecimal groups, or six of them with an IPv4 literal standing for
/// the last two.
pub open spec fn uncompressed_ok(ps: Seq<Seq<char>>) -> bool {
    ||| (ps.len() == 8 && forall|i: int| 0 <= i < 8 ==> is_h16(ps[i]))
    ||| (ps.len() == 7 && (forall|i: int| 0 <= i < 6 ==> is_h16(ps[i])) && is_ipv4_literal(ps[6]))
}

/// Whether the input is an IPv6 literal.
pub open spec fn is_ipv6_literal(s: Seq<char>) -> bool {
    let ps = split_on(s, ':');
    uncompressed_ok(ps) || exists|e: int| comp_at(ps, e)
}

fn all_h16_range(parts: &Vec<&str>, from: usize, to: usize) -> (r: bool)
    requires
        from <= to <= parts@.len(),
    ensures
        r == (forall|i: int| from <= i < to ==> is_h16(parts.deep_view()[i])),
{
    let mut i: usize = from;
    while i < to
        invariant
            from <= i <= to <= parts@.len(),
            forall|k: int| from <= k < i ==> is_h16(parts.deep_view()[k]),
        decreases to - i,
    {
        proof {
            assert(parts.deep_view()[i as int] == parts@[i as int]@);
        }
        if !check_h16(parts[i]) {
            return false;
        }
        i = i + 1;
    }
    true
}

fn check_comp_tail(parts: &Vec<&str>, k: usize, head_groups: usize) -> (r: bool)
    requires
        k <= parts@.len(),
    ensures
        r == (tail_ok(parts.deep_view().skip(k as int)) && head_groups + tail_groups(
            parts.deep_view().skip(k as int),
        ) <= 7),
{
    let ghost ts = parts.deep_view().skip(k as int);
    let n = parts.len();
    proof {
        assert(parts.deep_view().len() == n as int);
        assert(ts.len() == n - k);
        assert forall|i: int| 0 <= i < ts.len() implies ts[i] == parts.deep_view()[k + i] by {}
        assert forall|i: int| 0 <= i < n implies parts.deep_view()[i] == parts@[i]@ by {}
    }
    let m = n - k;
    if head_groups > 7 {
        return false;
    }
    if m == 1 && parts[k].is_empty() {
        return true;
    }
    if m < 1 || m > 8 {
        proof {
            if m >= 9 {
                assert(tail_groups(ts) >= 9);
            } else {
                assert(ts.len() == 0);
            }
        }
        return false;
    }
    if !all_h16_range(parts, k, n - 1) {
        proof {
            let j = choose|j: int| k <= j < n - 1 && !is_h16(parts.deep_view()[j]);
            assert(ts[j - k] == parts.deep_view()[j]);
            assert(ts.len() >= 2 ==> !tail_ok(ts));
            assert(ts.len() == 1 ==> j == k && k < n - 1);
        }
        return false;
    }
    let last_ok = check_h16(parts[n - 1]) || check_ipv4_literal(parts[n - 1]);
    if !last_ok {
        return false;
    }
    let groups: usize = if check_ipv4_literal(parts[n - 1]) {
        m + 1
    } else {
        m
    };
    proof {
        assert(ts.last() == parts@[n - 1]@);
        assert(groups == tail_groups(ts));
        assert(tail_ok(ts));
    }
    head_groups + groups <= 7
}

/// Decides whether the input is an IPv6 literal.
pub fn check_ipv6_literal(s: &str) -> (r: bool)
    ensures
        r == is_ipv6_literal(s@),
{
    let parts = split_parts(s, ':');
    let ghost ps = split_on(s@, ':');
    let n = parts.len();
    proof {
        assert(parts.deep_view().len() == n as int);
    }
    let mut e0: usize = 0;
    while e0 < n && !parts[e0].is_empty()
        invariant
            0 <= e0 <= n,
            n == parts@.len(),
            parts.deep_view() == ps,
            forall|k: int| 0 <= k < e0 ==> ps[k].len() > 0,
        decreases n - e0,
    {
        proof {
            assert(ps[e0 as int] == parts@[e0 as int]@);
        }
        e0 = e0 + 1;
    }
    proof {
        if e0 < n {
            assert(ps[e0 as int] == parts@[e0 as int]@);
        }
    }
    if e0 == n {
        let ok: bool = if n == 8 {
            all_h16_range(&parts, 0, 8)
        } else if n == 7 {
            all_h16_range(&parts, 0, 6) && check_ipv4_literal(parts[6])
        } else {
            false
        };
        proof {
            if n == 7 {
                assert(ps[6] == parts@[6]@);
            }
            assert(ok == uncompressed_ok(ps));
            assert forall|e: int| !comp_at(ps, e) by {
                if 0 <= e < ps.len() {
                    assert(ps[e].len() > 0);
                }
            }
        }
        ok
    } else {
        let ok: bool = if e0 == 0 {
            n >= 2 && parts[1].is_empty() && check_comp_tail(&parts, 2, 0)
        } else {
            all_h16_range(&parts, 0, e0) && check_comp_tail(&parts, e0 + 1, e0)
        };
        proof {
            if e0 == 0 {
                if n >= 2 {
                    assert(ps[1] == parts@[1]@);
                }
                assert(ok == comp_at(ps, 0));
            } else {
                assert(ok == comp_at(ps, e0 as int));
            }
            if ok {
                assert(comp_at(ps, e0 as int));
            } else {
                assert forall|e: int| !comp_at(ps, e) by {
                    if comp_at(ps, e) {
                        if e < e0 {
                            assert(ps[e].len() == 0);
                            assert(ps[e].len() > 0);
                        } else if e > e0 {
                            assert(is_h16(ps[e0 as int]));
                        }
                        assert(false);
                    }
                }
                assert(!uncompressed_ok(ps)) by {
                    if uncompressed_ok(ps) {
                        if ps.len() == 8 {
                            assert(is_h16(ps[e0 as int]));
                        } else {
                            if e0 < 6 {
                                assert(is_h16(ps[e0 as int]));
                            } else {
                                lemma_ipv4_nonempty(ps[6]);
                            }
                        }
                        assert(false);
                    }
                }
            }
        }
        ok
    }
}

/// The lower-case hexadecimal digit with value `n`.
pub open spec fn hex_char(n: int) -> char {
    if n == 0 {
        '0'
    } else if n == 1 {
        '1'
    } else if n == 2 {
        '2'
    } else if n == 3 {
        '3'
    } else if n == 4 {
        '4'
    } else if n == 5 {
        '5'
    } else if n == 6 {
        '6'
    } else if n == 7 {
        '7'
    } else if n == 8 {
        '8'
    } else if n == 9 {
        '9'
    } else if n == 10 {
        'a'
    } else if n == 11 {
        'b'
    } else if n == 12 {
        'c'
    } else if n == 13 {
        'd'
    } else if n == 14 {
        'e'
    } else {
        'f'
    }
}

fn hex_char_exec(n: u16) -> (r: char)
    requires
        n < 16,
    ensures
        r == hex_char(n as int),
{
    if n == 0 {
        '0'
    } else if n == 1 {
        '1'
    } else if n == 2 {
        '2'
    } else if n == 3 {
        '3'
    } else if n == 4 {
        '4'
    } else if n == 5 {
        '5'
    } else if n == 6 {
        '6'
    } else if n == 7 {
        '7'
    } else if n == 8 {
        '8'
    } else if n == 9 {
        '9'
    } else if n == 10 {
        'a'
    } else if n == 11 {
        'b'
    } else if n == 12 {
        'c'
    } else if n == 13 {
        'd'
    } else if n == 14 {
        'e'
    } else {
        'f'
    }
}

/// The lower-case hexadecimal text of `n`, with no leading zeros.
pub open spec fn hex_text(n: int) -> Seq<char>
    decreases n,
{
    if n < 16 {
        seq![hex_char(n)]
    } else {
        hex_text(n / 16).push(hex_char(n % 16))
    }
}

fn hex_group_append(out: &mut String, n: u16)
    ensures
        final(out)@ == old(out)@ + hex_text(n as int),
    decreases n,
{
    if n < 16 {
        crate::text::push_char(out, hex_char_exec(n));
    } else {
        hex_group_append(out, n / 16);
        crate::text::push_char(out, hex_char_exec(n % 16));
        proof {
            assert(old(out)@ + hex_text((n / 16) as int).push(hex_char((n % 16) as int))
                =~= old(out)@ + hex_text((n / 16) as int) + seq![hex_char((n % 16) as int)]);
        }
    }
}

/// The hexadecimal groups joined with single colons, no compression.
pub open spec fn groups_text(segs: Seq<u16>) -> Seq<char>
    decreases segs.len(),
{
    if segs.len() == 0 {
        Seq::empty()
    } else if segs.len() == 1 {
        hex_text(segs[0] as int)
    } else {
        groups_text(segs.drop_last()) + seq![':'] + hex_text(segs.last() as int)
    }
}

fn groups_append(out: &mut String, segs: &[u16; 8], from: usize, to: usize)
    requires
        from <= to <= 8,
    ensures
        final(out)@ == old(out)@ + groups_text(segs@.subrange(from as int, to as int)),
{
    let mut i: usize = from;
    proof {
        assert(segs@.subrange(from as int, from as int) =~= Seq::<u16>::empty());
        assert(old(out)@ + Seq::<char>::empty() =~= old(out)@);
    }
    while i < to
        invariant
            from <= i <= to <= 8,
            segs@.len() == 8,
            out@ == old(out)@ + groups_text(segs@.subrange(from as int, i as int)),
        decreases to - i,
    {
        let ghost before = out@;
        let ghost sub_i = segs@.subrange(from as int, i as int);
        if i > from {
            crate::text::push_char(out, ':');
        }
        hex_group_append(out, segs[i]);
        proof {
            let sub_i1 = segs@.subrange(from as int, i + 1);
            assert(sub_i1.drop_last() =~= sub_i);
            assert(sub_i1.last() == segs@[i as int]);
            if i == from {
                assert(groups_text(sub_i1) == hex_text(segs@[i as int] as int));
                assert(before + hex_text(segs@[i as int] as int) =~= old(out)@ + groups_text(
                    sub_i1,
                ));
            } else {
                assert(groups_text(sub_i1) == groups_text(sub_i) + seq![':'] + hex_text(
                    segs@[i as int] as int,
                ));
                assert(before.push(':') + hex_text(segs@[i as int] as int) =~= old(out)@
                    + groups_text(sub_i1));
            }
        }
        i = i + 1;
    }
}

/// How many zero groups stand in a row from position `i` on.
pub open spec fn run_len_at(segs: Seq<u16>, i: int) -> int
    decreases segs.len() - i,
{
    if 0 <= i < segs.len() && segs[i] == 0 {
        1 + run_len_at(segs, i + 1)
    } else {
        0
    }
}

/// The start of the zero run that `::` will stand for, looking from
/// position `i` on: the leftmost among the longest runs of at least two
/// zero groups, or `-1` when no such run exists.
pub open spec fn best_from(segs: Seq<u16>, i: int) -> int
    decreases segs.len() - i,
{
    if !(0 <= i < segs.len()) {
        -1
    } else {
        let rest = best_from(segs, i + 1);
        let li = run_len_at(segs, i);
        if li >= 2 && (rest == -1 || li >= run_len_at(segs, rest)) {
            i
        } else {
            rest
        }
    }
}

fn run_len_exec(segs: &[u16; 8], i: usize) -> (r: usize)
    requires
        i <= 8,
    ensures
        r == run_len_at(segs@, i as int),
        r <= 8 - i,
    decreases 8 - i,
{
    if i < 8 && segs[i] == 0 {
        1 + run_len_exec(segs, i + 1)
    } else {
        0
    }
}

fn best_from_exec(segs: &[u16; 8], i: usize) -> (r: Option<usize>)
    requires
        i <= 8,
    ensures
        best_from(segs@, i as int) == match r {
            Some(b) => b as int,
            None => -1,
        },
        r is Some ==> i <= r->0 < 8,
    decreases 8 - i,
{
    if i >= 8 {
        None
    } else {
        let rest = best_from_exec(segs, i + 1);
        let li = run_len_exec(segs, i);
        match rest {
            None => {
                if li >= 2 {
                    Some(i)
                } else {
                    None
                }
            },
            Some(b) => {
                if li >= 2 && li >= run_len_exec(segs, b) {
                    Some(i)
                } else {
                    Some(b)
                }
            },
        }
    }
}

/// The canonical text of eight 16-bit groups: lower-case hexadecimal
/// with no leading zeros, and the leftmost longest run of at least two
/// zero groups compressed to `::`.  The agent formats every IPv6
/// address it selects this way, so comparisons against its own cache
/// are exact.
pub open spec fn ipv6_text_spec(segs: Seq<u16>) -> Seq<char> {
    let b = best_from(segs, 0);
    if b == -1 {
        groups_text(segs)
    } else {
        groups_text(segs.take(b)) + seq![':', ':'] + groups_text(
            segs.skip(b + run_len_at(segs, b)),
        )
    }
}

/// Formats the address as `ipv6_text_spec` describes.
pub fn ipv6_text(segs: &[u16; 8]) -> (r: String)
    ensures
        r@ == ipv6_text_spec(segs@),
{
    let mut out = String::new();
    match best_from_exec(segs, 0) {
        None => {
            groups_append(&mut out, segs, 0, 8);
            proof {
                assert(segs@.subrange(0, 8) =~= segs@);
                assert(out@ =~= groups_text(segs@));
            }
        },
        Some(b) => {
            let l = run_len_exec(segs, b);
            groups_append(&mut out, segs, 0, b);
            crate::text::push_char(&mut out, ':');
            crate::text::push_char(&mut out, ':');
            groups_append(&mut out, segs, b + l, 8);
            proof {
                assert(segs@.subrange(0, b as int) =~= segs@.take(b as int));
                assert(segs@.subrange(b + l, 8) =~= segs@.skip(b + l));
                assert(out@ =~= groups_text(segs@.take(b as int)) + seq![':', ':'] + groups_text(
                    segs@.skip(b + l),
                ));
            }
        },
    }
    out
}

proof fn lemma_split_concat(a: Seq<char>, b: Seq<char>, sep: char)
    ensures
        split_on(a + seq![sep] + b, sep) == split_on(a, sep) + split_on(b, sep),
    decreases a.len(),
{
    let s = a + seq![sep] + b;
    if a.len() == 0 {
        assert(s[0] == sep);
        assert(s.drop_first() =~= b);
        assert(split_on(a, sep) == seq![Seq::<char>::empty()]);
        assert(split_on(s, sep) =~~= split_on(a, sep) + split_on(b, sep));
    } else {
        let t = a.drop_first();
        lemma_split_concat(t, b, sep);
        lemma_split_len(t, sep);
        lemma_split_len(t + seq![sep] + b, sep);
        assert(s[0] == a[0]);
        assert(s.drop_first() =~= t + seq![sep] + b);
        let rest = split_on(t + seq![sep] + b, sep);
        let rt = split_on(t, sep);
        assert(rest == rt + split_on(b, sep));
        if a[0] == sep {
            assert(split_on(s, sep) == seq![Seq::<char>::empty()] + rest);
            assert(split_on(a, sep) == seq![Seq::<char>::empty()] + rt);
            assert(seq![Seq::<char>::empty()] + (rt + split_on(b, sep)) =~~= (seq![
                Seq::<char>::empty(),
            ] + rt) + split_on(b, sep));
        } else {
            assert(split_on(s, sep) == seq![seq![a[0]] + rest[0]] + rest.drop_first());
            assert(split_on(a, sep) == seq![seq![a[0]] + rt[0]] + rt.drop_first());
            assert(rest[0] == rt[0]);
            assert(rest.drop_first() =~= rt.drop_first() + split_on(b, sep));
            assert(seq![seq![a[0]] + rt[0]] + (rt.drop_first() + split_on(b, sep)) =~~= (seq![
                seq![a[0]] + rt[0],
            ] + rt.drop_first()) + split_on(b, sep));
        }
    }
}

proof fn lemma_split_no_sep(s: Seq<char>, sep: char)
    requires
        forall|i: int| 0 <= i < s.len() ==> s[i] != sep,
    ensures
        split_on(s, sep) == seq![s],
    decreases s.len(),
{
    if s.len() == 0 {
        assert(split_on(s, sep) =~~= seq![s]);
    } else {
        let t = s.drop_first();
        lemma_split_no_sep(t, sep);
        assert(split_on(s, sep) =~~= seq![s]);
    }
}

proof fn lemma_hex_text_h16(n: int)
    requires
        0 <= n < 0x10000,
    ensures
        is_h16(hex_text(n)),
        forall|i: int| 0 <= i < hex_text(n).len() ==> is_hex_digit(#[trigger] hex_text(n)[i]),
    decreases n,
{
    if n < 16 {
        assert(is_hex_digit(hex_char(n)));
    } else {
        lemma_hex_text_h16(n / 16);
        assert(is_hex_digit(hex_char(n % 16)));
        if n < 0x1000 {
            lemma_hex_len(n);
        } else {
            lemma_hex_len(n / 16);
        }
        let pre = hex_text(n / 16);
        assert(hex_text(n) == pre.push(hex_char(n % 16)));
        assert forall|i: int| 0 <= i < hex_text(n).len() implies is_hex_digit(
            #[trigger] hex_text(n)[i],
        ) by {
            if i < pre.len() {
                assert(hex_text(n)[i] == pre[i]);
            } else {
                assert(hex_text(n)[i] == hex_char(n % 16));
            }
        }
    }
}

proof fn lemma_hex_len(n: int)
    requires
        0 <= n < 0x1000,
    ensures
        hex_text(n).len() <= 3,
    decreases n,
{
    if n >= 16 {
        assert(hex_text(n / 16).len() <= 2) by {
            lemma_hex_len_small(n / 16);
        }
    }
}

proof fn lemma_hex_len_small(n: int)
    requires
        0 <= n < 0x100,
    ensures
        hex_text(n).len() <= 2,
{
    if n >= 16 {
        assert(hex_text(n / 16).len() == 1);
    }
}

proof fn lemma_h16_not_ipv4(p: Seq<char>)
    requires
        is_h16(p),
    ensures
        !is_ipv4_literal(p),
{
    assert forall|i: int| 0 <= i < p.len() implies p[i] != '.' by {
        assert(is_hex_digit(p[i]));
    }
    lemma_split_no_sep(p, '.');
}

proof fn lemma_groups_split(segs: Seq<u16>)
    requires
        segs.len() >= 1,
    ensures
        ({
            let ps = split_on(groups_text(segs), ':');
            &&& ps.len() == segs.len()
            &&& forall|i: int| 0 <= i < ps.len() ==> #[trigger] ps[i] == hex_text(segs[i] as int)
        }),
    decreases segs.len(),
{
    if segs.len() == 1 {
        lemma_hex_text_h16(segs[0] as int);
        assert forall|i: int|
            0 <= i < hex_text(segs[0] as int).len() implies hex_text(segs[0] as int)[i]
            != ':' by {
            assert(is_hex_digit(hex_text(segs[0] as int)[i]));
        }
        lemma_split_no_sep(hex_text(segs[0] as int), ':');
    } else {
        let dl = segs.drop_last();
        lemma_groups_split(dl);
        lemma_hex_text_h16(segs.last() as int);
        let h = hex_text(segs.last() as int);
        assert forall|i: int| 0 <= i < h.len() implies h[i] != ':' by {
            assert(is_hex_digit(h[i]));
        }
        lemma_split_no_sep(h, ':');
        lemma_split_concat(groups_text(dl), h, ':');
        let ps = split_on(groups_text(segs), ':');
        let pdl = split_on(groups_text(dl), ':');
        assert(ps == pdl + seq![h]);
        assert forall|i: int| 0 <= i < ps.len() implies #[trigger] ps[i] == hex_text(
            segs[i] as int,
        ) by {
            if i < pdl.len() {
                assert(ps[i] == pdl[i]);
                assert(dl[i] == segs[i]);
            } else {
                assert(ps[i] == h);
                assert(i == segs.len() - 1);
            }
        }
    }
}

proof fn lemma_run_len_bound(segs: Seq<u16>, i: int)
    requires
        0 <= i <= segs.len(),
    ensures
        0 <= run_len_at(segs, i) <= segs.len() - i,
    decreases segs.len() - i,
{
    if i < segs.len() && segs[i] == 0 {
        lemma_run_len_bound(segs, i + 1);
    }
}

proof fn lemma_best_from_props(segs: Seq<u16>, i: int)
    requires
        0 <= i <= segs.len(),
    ensures
        best_from(segs, i) != -1 ==> i <= best_from(segs, i) < segs.len() && run_len_at(
            segs,
            best_from(segs, i),
        ) >= 2,
    decreases segs.len() - i,
{
    if i < segs.len() {
        lemma_best_from_props(segs, i + 1);
    }
}

/// Every address the canonical formatter produces is itself a valid
/// IPv6 literal, so a formatted candidate written to the cache file
/// seeds back as a known-good value on the next start.
pub proof fn lemma_canonical_text_is_literal(segs: Seq<u16>)
    requires
        segs.len() == 8,
    ensures
        is_ipv6_literal(ipv6_text_spec(segs)),
{
    let b = best_from(segs, 0);
    lemma_best_from_props(segs, 0);
    if b == -1 {
        lemma_groups_split(segs);
        let ps = split_on(groups_text(segs), ':');
        assert forall|i: int| 0 <= i < 8 implies is_h16(ps[i]) by {
            assert(ps[i] == hex_text(segs[i] as int));
            lemma_hex_text_h16(segs[i] as int);
        }
        assert(uncompressed_ok(ps));
    } else {
        let l = run_len_at(segs, b);
        lemma_run_len_bound(segs, b);
        let g1 = groups_text(segs.take(b));
        let g2 = groups_text(segs.skip(b + l));
        let text = ipv6_text_spec(segs);
        assert(text =~= g1 + seq![':'] + (seq![':'] + g2));
        lemma_split_concat(g1, seq![':'] + g2, ':');
        assert(seq![':'] + g2 =~= Seq::<char>::empty() + seq![':'] + g2);
        lemma_split_concat(Seq::<char>::empty(), g2, ':');
        assert(split_on(Seq::<char>::empty(), ':') == seq![Seq::<char>::empty()]);
        let ps = split_on(text, ':');
        assert(ps == split_on(g1, ':') + seq![Seq::<char>::empty()] + split_on(g2, ':'));
        let p1 = split_on(g1, ':');
        let p2 = split_on(g2, ':');
        if b > 0 {
            lemma_groups_split(segs.take(b));
            assert forall|i: int| 0 <= i < b implies is_h16(#[trigger] ps[i]) by {
                assert(ps[i] == p1[i]);
                assert(p1[i] == hex_text(segs.take(b)[i] as int));
                lemma_hex_text_h16(segs.take(b)[i] as int);
            }
        }
        if b + l < 8 {
            lemma_groups_split(segs.skip(b + l));
            assert(p2.len() == 8 - b - l);
            assert forall|i: int| 0 <= i < p2.len() implies is_h16(#[trigger] p2[i]) by {
                assert(p2[i] == hex_text(segs.skip(b + l)[i] as int));
                lemma_hex_text_h16(segs.skip(b + l)[i] as int);
            }
        } else {
            assert(segs.skip(b + l).len() == 0);
            assert(g2 =~= Seq::<char>::empty());
            assert(p2 == seq![Seq::<char>::empty()]);
        }
        let e = if b == 0 {
            0int
        } else {
            b
        };
        if b == 0 {
            assert(segs.take(0).len() == 0);
            assert(g1 =~= Seq::<char>::empty());
            assert(p1 == seq![Seq::<char>::empty()]);
            assert(ps[0].len() == 0);
            assert(ps[1].len() == 0);
            let ts = ps.skip(2);
            if b + l < 8 {
                assert(ts =~= p2);
                assert(is_h16(p2.last()));
                lemma_h16_not_ipv4(p2.last());
                assert(tail_ok(ts));
                assert(tail_groups(ts) == p2.len());
                assert(comp_at(ps, 0));
            } else {
                assert(ts =~= seq![Seq::<char>::empty()]);
                assert(tail_ok(ts));
                assert(tail_groups(ts) == 0);
                assert(comp_at(ps, 0));
            }
        } else {
            assert(p1.len() == b);
            assert(ps[b].len() == 0);
            let ts = ps.skip(b + 1);
            if b + l < 8 {
                assert(ts =~= p2);
                assert(is_h16(p2.last()));
                lemma_h16_not_ipv4(p2.last());
                assert(tail_ok(ts));
                assert(tail_groups(ts) == p2.len());
                assert(b + tail_groups(ts) == 8 - l);
                assert(comp_at(ps, b));
            } else {
                assert(ts =~= seq![Seq::<char>::empty()]);
                assert(tail_ok(ts));
                assert(tail_groups(ts) == 0);
                assert(comp_at(ps, b));
            }
        }
        assert(comp_at(ps, e));
    }
}

/// Whether the input is an IP literal of either family.
pub open spec fn is_ip_literal(s: Seq<char>) -> bool {
    is_ipv4_literal(s) || is_ipv6_literal(s)
}

/// Decides whether the input is an IP literal of either family.
pub fn check_ip_literal(s: &str) -> (r: bool)
    ensures
        r == is_ip_literal(s@),
{
    check_ipv4_literal(s) || check_ipv6_literal(s)
}

} // verus!
