//! The resolver decisions: which body from the IPv4 echo service
//! becomes a candidate, and which address of an enumerated interface
//! becomes the IPv6 candidate.
//!
//! The network call and the interface enumeration happen outside the
//! library; these functions receive their plain results and decide.

use crate::addr::check_ip_literal;
use crate::addr::ipv6_text;
use crate::addr::ipv6_text_spec;
use crate::addr::is_ip_literal;
use vstd::prelude::*;

verus! {

/// Whether the address is IPv6 link-local: the top ten bits of its
/// first group are the link-local prefix `1111 1110 10`.
pub open spec fn is_link_local(segs: Seq<u16>) -> bool {
    segs.len() == 8 && (segs[0] & 0xffc0) == 0xfe80
}

/// Decides whether the address is link-local.
pub fn check_link_local(segs: &[u16; 8]) -> (r: bool)
    ensures
        r == is_link_local(segs@),
{
    (segs[0] & 0xffc0) == 0xfe80
}

/// Lexicographic order on segment sequences.
pub open spec fn seg_le(a: Seq<u16>, b: Seq<u16>) -> bool
    decreases a.len(),
{
    if a.len() == 0 || b.len() == 0 {
        true
    } else if a[0] < b[0] {
        true
    } else if a[0] > b[0] {
        false
    } else {
        seg_le(a.drop_first(), b.drop_first())
    }
}

/// Strict lexicographic order on segment sequences.
pub open spec fn seg_lt(a: Seq<u16>, b: Seq<u16>) -> bool
    decreases a.len(),
{
    if a.len() == 0 || b.len() == 0 {
        false
    } else if a[0] < b[0] {
        true
    } else if a[0] > b[0] {
        false
    } else {
        seg_lt(a.drop_first(), b.drop_first())
    }
}

proof fn lemma_seg_le_refl(a: Seq<u16>)
    ensures
        seg_le(a, a),
    decreases a.len(),
{
    if a.len() > 0 {
        lemma_seg_le_refl(a.drop_first());
    }
}

proof fn lemma_seg_lt_le(a: Seq<u16>, b: Seq<u16>)
    requires
        a.len() == b.len(),
    ensures
        seg_lt(a, b) ==> seg_le(a, b),
        !seg_lt(a, b) ==> seg_le(b, a),
    decreases a.len(),
{
    if a.len() > 0 {
        lemma_seg_lt_le(a.drop_first(), b.drop_first());
    }
}

proof fn lemma_seg_le_trans(a: Seq<u16>, b: Seq<u16>, c: Seq<u16>)
    requires
        a.len() == b.len(),
        b.len() == c.len(),
        seg_le(a, b),
        seg_le(b, c),
    ensures
        seg_le(a, c),
    decreases a.len(),
{
    if a.len() > 0 && !(a[0] < c[0]) && !(a[0] > c[0]) {
        if a[0] == b[0] && b[0] == c[0] {
            lemma_seg_le_trans(a.drop_first(), b.drop_first(), c.drop_first());
        }
    }
}

fn seg_lt_exec(a: &[u16; 8], b: &[u16; 8]) -> (r: bool)
    ensures
        r == seg_lt(a@, b@),
{
    let mut i: usize = 0;
    proof {
        assert(a@.skip(0) =~= a@);
        assert(b@.skip(0) =~= b@);
    }
    while i < 8
        invariant
            0 <= i <= 8,
            seg_lt(a@, b@) == seg_lt(a@.skip(i as int), b@.skip(i as int)),
        decreases 8 - i,
    {
        let ghost sa = a@.skip(i as int);
        let ghost sb = b@.skip(i as int);
        proof {
            assert(sa[0] == a@[i as int]);
            assert(sb[0] == b@[i as int]);
            assert(sa.drop_first() =~= a@.skip(i + 1));
            assert(sb.drop_first() =~= b@.skip(i + 1));
        }
        if a[i] < b[i] {
            return true;
        }
        if a[i] > b[i] {
            return false;
        }
        i = i + 1;
    }
    proof {
        assert(a@.skip(8).len() == 0);
    }
    false
}

/// Whether `a` stands among the interface's addresses and is not
/// link-local: only such an address may become the IPv6 candidate.
pub open spec fn eligible(
    entries: Seq<(Seq<char>, Seq<u16>)>,
    name: Seq<char>,
    a: Seq<u16>,
) -> bool {
    exists|i: int|
        0 <= i < entries.len() && entries[i] == (name, a) && !is_link_local(a)
}

/// Selects the IPv6 candidate from the enumerated interface addresses:
/// among the addresses of the wanted interface that are not link-local,
/// the numerically smallest.  The choice is deterministic and does not
/// depend on the order in which the interfaces were enumerated.
pub fn ipv6(entries: &Vec<(String, [u16; 8])>, interface: &str) -> (r: Option<[u16; 8]>)
    ensures
        match r {
            Some(a) => eligible(entries.deep_view(), interface@, a@) && forall|b: Seq<u16>|
                eligible(entries.deep_view(), interface@, b) ==> seg_le(a@, b),
            None => forall|b: Seq<u16>| !eligible(entries.deep_view(), interface@, b),
        },
{
    let ghost dv = entries.deep_view();
    let ghost name = interface@;
    let n = entries.len();
    proof {
        assert(dv.len() == n as int);
        assert forall|i: int| 0 <= i < n implies dv[i] == (entries@[i].0@, entries@[i].1@) by {
            assert(dv[i] == entries@[i].deep_view());
            assert(entries@[i].1.deep_view() =~= entries@[i].1@);
        }
    }
    let mut best: Option<[u16; 8]> = None;
    let mut i: usize = 0;
    while i < n
        invariant
            0 <= i <= n,
            n == entries@.len(),
            dv == entries.deep_view(),
            name == interface@,
            dv.len() == n as int,
            forall|k: int| 0 <= k < n ==> dv[k] == (entries@[k].0@, entries@[k].1@),
            forall|k: int| 0 <= k < n ==> #[trigger] dv[k].1.len() == 8,
            match best {
                Some(bv) => eligible(dv.take(i as int), name, bv@) && forall|b: Seq<u16>|
                    eligible(dv.take(i as int), name, b) ==> seg_le(bv@, b),
                None => forall|b: Seq<u16>| !eligible(dv.take(i as int), name, b),
            },
        decreases n - i,
    {
        let ghost pre = dv.take(i as int);
        let ghost post = dv.take(i + 1);
        proof {
            assert(post.drop_last() =~= pre);
            assert(post.last() == dv[i as int]);
        }
        let name_matches = crate::text::str_eq(entries[i].0.as_str(), interface);
        let ll = check_link_local(&entries[i].1);
        let cand = entries[i].1;
        let ghost cv = cand@;
        if name_matches && !ll {
            proof {
                assert(dv[i as int] == (name, cv));
                assert(eligible(post, name, cv));
            }
            match best {
                None => {
                    best = Some(cand);
                    proof {
                        lemma_seg_le_refl(cv);
                        assert forall|b: Seq<u16>| eligible(post, name, b) implies seg_le(
                            cv,
                            b,
                        ) by {
                            let j = choose|j: int|
                                0 <= j < post.len() && post[j] == (name, b) && !is_link_local(b);
                            if j < i {
                                assert(eligible(pre, name, b));
                                assert(false);
                            } else {
                                assert(b == cv);
                            }
                        }
                    }
                },
                Some(cur) => {
                    if seg_lt_exec(&cand, &cur) {
                        let ghost curv = cur@;
                        best = Some(cand);
                        proof {
                            lemma_seg_le_refl(cv);
                            lemma_seg_lt_le(cv, curv);
                            assert forall|b: Seq<u16>| eligible(post, name, b) implies seg_le(
                                cv,
                                b,
                            ) by {
                                let j = choose|j: int|
                                    0 <= j < post.len() && post[j] == (name, b)
                                        && !is_link_local(b);
                                if j < i {
                                    assert(eligible(pre, name, b));
                                    assert(seg_le(curv, b));
                                    assert(b.len() == 8);
                                    lemma_seg_le_trans(cv, curv, b);
                                } else {
                                    assert(b == cv);
                                }
                            }
                        }
                    } else {
                        proof {
                            let curv = cur@;
                            lemma_seg_lt_le(cv, curv);
                            let j0 = choose|j: int|
                                0 <= j < pre.len() && pre[j] == (name, curv) && !is_link_local(
                                    curv,
                                );
                            assert(post[j0] == (name, curv));
                            assert(eligible(post, name, curv));
                            assert forall|b: Seq<u16>| eligible(post, name, b) implies seg_le(
                                curv,
                                b,
                            ) by {
                                let j = choose|j: int|
                                    0 <= j < post.len() && post[j] == (name, b)
                                        && !is_link_local(b);
                                if j < i {
                                    assert(eligible(pre, name, b));
                                } else {
                                    assert(b == cv);
                                    assert(seg_le(curv, cv));
                                }
                            }
                        }
                    }
                },
            }
        } else {
            proof {
                match best {
                    Some(bv) => {
                        let bvv = bv@;
                        let j0 = choose|j: int|
                            0 <= j < pre.len() && pre[j] == (name, bvv) && !is_link_local(bvv);
                        assert(post[j0] == (name, bvv));
                        assert(eligible(post, name, bvv));
                        assert forall|b: Seq<u16>| eligible(post, name, b) implies seg_le(
                            bvv,
                            b,
                        ) by {
                            let j = choose|j: int|
                                0 <= j < post.len() && post[j] == (name, b) && !is_link_local(b);
                            if j < i {
                                assert(eligible(pre, name, b));
                            } else {
                                assert(post[j] == dv[i as int]);
                                assert(!(name_matches && !ll));
                                assert(false);
                            }
                        }
                    },
                    None => {
                        assert forall|b: Seq<u16>| !eligible(post, name, b) by {
                            if eligible(post, name, b) {
                                let j = choose|j: int|
                                    0 <= j < post.len() && post[j] == (name, b)
                                        && !is_link_local(b);
                                if j < i {
                                    assert(eligible(pre, name, b));
                                } else {
                                    assert(post[j] == dv[i as int]);
                                    assert(!(name_matches && !ll));
                                }
                                assert(false);
                            }
                        }
                    },
                }
            }
        }
        i = i + 1;
    }
    proof {
        assert(dv.take(n as int) =~= dv);
    }
    best
}

/// The decision on the body the IPv4 echo service returned: the body
/// itself, untouched, becomes the candidate exactly when it is a valid
/// IP literal; anything else yields no candidate this tick.
pub fn ipv4(body: &str) -> (r: Option<String>)
    ensures
        match r {
            Some(a) => a@ == body@ && is_ip_literal(body@),
            None => !is_ip_literal(body@),
        },
{
    if check_ip_literal(body) {
        Some(String::from_str(body))
    } else {
        None
    }
}

/// The selected interface address as canonical text, ready to compare
/// against the known-good value.
pub fn ipv6_candidate(entries: &Vec<(String, [u16; 8])>, interface: &str) -> (r: Option<String>)
    ensures
        match r {
            Some(t) => exists|a: Seq<u16>|
                {
                    &&& eligible(entries.deep_view(), interface@, a)
                    &&& t@ == ipv6_text_spec(a)
                    &&& forall|b: Seq<u16>|
                        eligible(entries.deep_view(), interface@, b) ==> seg_le(a, b)
                },
            None => forall|b: Seq<u16>| !eligible(entries.deep_view(), interface@, b),
        },
{
    match ipv6(entries, interface) {
        Some(segs) => {
            let t = ipv6_text(&segs);
            proof {
                let a = segs@;
                assert(eligible(entries.deep_view(), interface@, a) && t@ == ipv6_text_spec(a)
                    && forall|b: Seq<u16>|
                    eligible(entries.deep_view(), interface@, b) ==> seg_le(a, b));
            }
            Some(t)
        },
        None => None,
    }
}

} // verus!
