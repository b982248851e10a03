//! IPv4 addresses and their canonical dotted-quad text.
//!
//! An address is held as its four octets. Its canonical text is the usual
//! dotted-quad rendering: each octet in decimal with no leading zeros, the
//! four parts joined by dots. That rendering is unique per address, so the
//! parser's contract can be stated through it alone: parsing succeeds exactly
//! on the canonical text of some address, and returns that address.

use vstd::prelude::*;

use crate::errors::AddressResolutionError;

verus! {

/// An IPv4 address, held as its four dotted-quad octets.
#[derive(Clone, Copy, Debug, PartialEq, Eq, Structural, Hash)]
pub struct Ipv4Address {
    pub o1: u8,
    pub o2: u8,
    pub o3: u8,
    pub o4: u8,
}

/// ASCII code of the dot separating the quad's parts.
pub const DOT: u8 = 46;

pub open spec fn is_ascii_digit(c: u8) -> bool {
    48 <= c <= 57
}

/// The ASCII digit for a value between 0 and 9.
pub open spec fn digit_char(d: int) -> u8 {
    (48 + d) as u8
}

/// Canonical decimal text of one octet: one to three digits, no leading zero.
pub open spec fn spec_octet_text(n: u8) -> Seq<u8> {
    if n < 10 {
        seq![digit_char(n as int)]
    } else if n < 100 {
        seq![digit_char(n as int / 10), digit_char(n as int % 10)]
    } else {
        seq![
            digit_char(n as int / 100),
            digit_char((n as int / 10) % 10),
            digit_char(n as int % 10),
        ]
    }
}

/// Canonical dotted-quad text of an address.
pub open spec fn spec_ipv4_text(a: Ipv4Address) -> Seq<u8> {
    spec_octet_text(a.o1) + seq![DOT] + spec_octet_text(a.o2) + seq![DOT] + spec_octet_text(a.o3)
        + seq![DOT] + spec_octet_text(a.o4)
}

/// Basic facts about an octet's canonical text: its length is one to three,
/// every byte of it is a digit, and a multi-digit text never starts with zero.
proof fn lemma_octet_text_shape(n: u8)
    ensures
        1 <= spec_octet_text(n).len() <= 3,
        spec_octet_text(n).len() == 1 <==> n < 10,
        spec_octet_text(n).len() == 2 <==> 10 <= n < 100,
        spec_octet_text(n).len() == 3 <==> n >= 100,
        forall|i: int|
            0 <= i < spec_octet_text(n).len() ==> is_ascii_digit(#[trigger] spec_octet_text(n)[i]),
        spec_octet_text(n).len() > 1 ==> spec_octet_text(n)[0] != 48,
{
    if n < 10 {
    } else if n < 100 {
        assert(1 <= n / 10 < 10 && n % 10 < 10) by (bit_vector)
            requires
                10 <= n < 100,
        ;
    } else {
        assert(1 <= n / 100 < 10 && (n / 10) % 10 < 10 && n % 10 < 10) by (bit_vector)
            requires
                n >= 100,
        ;
    }
}

/// Two octet values with the same canonical text are the same value.
proof fn lemma_octet_text_injective(v: u8, w: u8)
    requires
        spec_octet_text(v) == spec_octet_text(w),
    ensures
        v == w,
{
    lemma_octet_text_shape(v);
    lemma_octet_text_shape(w);
    if v < 10 {
        assert(w < 10);
        assert(seq![digit_char(v as int)][0] == digit_char(v as int));
        assert(seq![digit_char(w as int)][0] == digit_char(w as int));
        assert(spec_octet_text(v)[0] == spec_octet_text(w)[0]);
    } else if v < 100 {
        assert(10 <= w < 100);
        assert(v / 10 <= 9 && w / 10 <= 9 && v % 10 <= 9 && w % 10 <= 9) by (bit_vector)
            requires
                10 <= v < 100 && 10 <= w < 100,
        ;
        assert(spec_octet_text(v)[0] == spec_octet_text(w)[0]);
        assert(spec_octet_text(v)[1] == spec_octet_text(w)[1]);
        assert(v / 10 == w / 10 && v % 10 == w % 10);
        assert(v / 10 == w / 10 && v % 10 == w % 10 ==> v == w) by (bit_vector);
    } else {
        assert(w >= 100);
        assert(v / 100 <= 9 && w / 100 <= 9 && (v / 10) % 10 <= 9 && (w / 10) % 10 <= 9 && v % 10
            <= 9 && w % 10 <= 9) by (bit_vector)
            requires
                v >= 100 && w >= 100,
        ;
        assert(spec_octet_text(v)[0] == spec_octet_text(w)[0]);
        assert(spec_octet_text(v)[1] == spec_octet_text(w)[1]);
        assert(spec_octet_text(v)[2] == spec_octet_text(w)[2]);
        assert(v / 100 == w / 100 && (v / 10) % 10 == (w / 10) % 10 && v % 10 == w % 10);
        assert(v / 100 == w / 100 && (v / 10) % 10 == (w / 10) % 10 && v % 10 == w % 10 ==> v
            == w) by (bit_vector);
    }
}

/// The canonical text of `v` stands at position `p` of `s`, followed by the
/// end of `s` or by a byte that is not a digit. Because canonical octet texts
/// carry no leading zeros and at most three digits, at most one value can
/// stand this way at a given position.
pub open spec fn octet_at(s: Seq<u8>, p: int, v: u8) -> bool {
    &&& 0 <= p
    &&& p + spec_octet_text(v).len() <= s.len()
    &&& s.subrange(p, p + spec_octet_text(v).len()) == spec_octet_text(v)
    &&& (p + spec_octet_text(v).len() == s.len() || !is_ascii_digit(
        s[p + spec_octet_text(v).len()],
    ))
}

/// A sequence equal to a subrange of `s` reads element for element from `s`.
proof fn lemma_chunk_eq(s: Seq<u8>, p: int, t: Seq<u8>)
    requires
        0 <= p,
        p + t.len() <= s.len(),
        s.subrange(p, p + t.len()) == t,
    ensures
        forall|i: int| 0 <= i < t.len() ==> #[trigger] t[i] == s[p + i],
{
    assert forall|i: int| 0 <= i < t.len() implies #[trigger] t[i] == s[p + i] by {
        assert(s.subrange(p, p + t.len())[i] == s[p + i]);
    }
}

proof fn lemma_octet_at_unique(s: Seq<u8>, p: int, v: u8, w: u8)
    requires
        octet_at(s, p, v),
        octet_at(s, p, w),
    ensures
        v == w,
{
    lemma_octet_text_shape(v);
    lemma_octet_text_shape(w);
    let lv = spec_octet_text(v).len() as int;
    let lw = spec_octet_text(w).len() as int;
    if lv < lw {
        assert(is_ascii_digit(spec_octet_text(w)[lv]));
        assert(s[p + lv] == spec_octet_text(w)[lv]);
        assert(false);
    }
    if lw < lv {
        assert(is_ascii_digit(spec_octet_text(v)[lw]));
        assert(s[p + lw] == spec_octet_text(v)[lw]);
        assert(false);
    }
    assert(spec_octet_text(v) == spec_octet_text(w));
    lemma_octet_text_injective(v, w);
}

/// Appends the canonical decimal text of one octet.
fn push_octet_text(out: &mut Vec<u8>, n: u8)
    ensures
        final (out)@ == old(out)@ + spec_octet_text(n),
{
    if n < 10 {
        out.push(48 + n);
        assert(out@ =~= old(out)@ + spec_octet_text(n));
    } else if n < 100 {
        assert(n / 10 <= 9 && n % 10 <= 9) by (bit_vector)
            requires
                10 <= n < 100,
        ;
        out.push(48 + n / 10);
        out.push(48 + n % 10);
        assert(out@ =~= old(out)@ + spec_octet_text(n));
    } else {
        assert(n / 100 <= 9 && (n / 10) % 10 <= 9 && n % 10 <= 9) by (bit_vector)
            requires
                n >= 100,
        ;
        out.push(48 + n / 100);
        out.push(48 + (n / 10) % 10);
        out.push(48 + n % 10);
        assert(out@ =~= old(out)@ + spec_octet_text(n));
    }
}

/// Renders an address as its canonical dotted-quad text.
pub fn format_ipv4(a: &Ipv4Address) -> (r: Vec<u8>)
    ensures
        r@ == spec_ipv4_text(*a),
{
    let mut out: Vec<u8> = Vec::new();
    push_octet_text(&mut out, a.o1);
    out.push(DOT);
    push_octet_text(&mut out, a.o2);
    out.push(DOT);
    push_octet_text(&mut out, a.o3);
    out.push(DOT);
    push_octet_text(&mut out, a.o4);
    assert(out@ =~= spec_ipv4_text(*a));
    out
}

/// Reads one canonical octet text starting at `p`: one to three digits, no
/// leading zero, value at most 255, not followed by a further digit.
fn scan_octet(s: &[u8], p: usize) -> (r: Option<(u8, usize)>)
    requires
        p <= s@.len(),
    ensures
        match r {
            Some(pair) => octet_at(s@, p as int, pair.0) && pair.1 == p
                + spec_octet_text(pair.0).len(),
            None => forall|v: u8| !octet_at(s@, p as int, v),
        },
{
    let n = s.len();
    if p >= n || !(48 <= s[p] && s[p] <= 57) {
        proof {
            assert forall|v: u8| !octet_at(s@, p as int, v) by {
                if octet_at(s@, p as int, v) {
                    lemma_octet_text_shape(v);
                    assert(s@.subrange(p as int, p + spec_octet_text(v).len())[0] == s@[p as int]);
                    assert(is_ascii_digit(s@[p as int]));
                }
            }
        }
        return None;
    }
    let d0 = s[p] - 48;
    if p + 1 == n || !(48 <= s[p + 1] && s[p + 1] <= 57) {
        proof {
            assert(s@.subrange(p as int, p as int + 1) =~= spec_octet_text(d0));
        }
        return Some((d0, p + 1));
    }
    if d0 == 0 {
        proof {
            assert forall|v: u8| !octet_at(s@, p as int, v) by {
                if octet_at(s@, p as int, v) {
                    lemma_octet_text_shape(v);
                    assert(s@.subrange(p as int, p + spec_octet_text(v).len())[0] == s@[p as int]);
                    assert(spec_octet_text(v)[0] == 48);
                    assert(spec_octet_text(v).len() == 1);
                    assert(is_ascii_digit(s@[p + 1]));
                }
            }
        }
        return None;
    }
    let d1 = s[p + 1] - 48;
    if p + 2 == n || !(48 <= s[p + 2] && s[p + 2] <= 57) {
        let v = 10 * d0 + d1;
        proof {
            assert((10 * d0 + d1) / 10 == d0 && (10 * d0 + d1) % 10 == d1) by (bit_vector)
                requires
                    1 <= d0 <= 9 && d1 <= 9,
            ;
            assert(s@.subrange(p as int, p as int + 2) =~= spec_octet_text(v));
        }
        return Some((v, p + 2));
    }
    let d2 = s[p + 2] - 48;
    if p + 3 < n && 48 <= s[p + 3] && s[p + 3] <= 57 {
        proof {
            assert forall|v: u8| !octet_at(s@, p as int, v) by {
                if octet_at(s@, p as int, v) {
                    lemma_octet_text_shape(v);
                    let l = spec_octet_text(v).len() as int;
                    assert(is_ascii_digit(s@[p + 1]) && is_ascii_digit(s@[p + 2]) && is_ascii_digit(
                        s@[p + 3],
                    ));
                    assert(p + l < n && is_ascii_digit(s@[p + l]));
                }
            }
        }
        return None;
    }
    let ghost e0 = d0 as u16;
    let ghost e1 = d1 as u16;
    let ghost e2 = d2 as u16;
    let val: u16 = 100 * (d0 as u16) + 10 * (d1 as u16) + (d2 as u16);
    if val > 255 {
        proof {
            assert forall|v: u8| !octet_at(s@, p as int, v) by {
                if octet_at(s@, p as int, v) {
                    lemma_octet_text_shape(v);
                    let l = spec_octet_text(v).len() as int;
                    assert(is_ascii_digit(s@[p + 1]) && is_ascii_digit(s@[p + 2]));
                    assert(l == 3);
                    lemma_chunk_eq(s@, p as int, spec_octet_text(v));
                    assert(v / 100 <= 9 && (v / 10) % 10 <= 9 && v % 10 <= 9) by (bit_vector);
                    assert(spec_octet_text(v)[0] == s@[p as int]);
                    assert(spec_octet_text(v)[1] == s@[p + 1]);
                    assert(spec_octet_text(v)[2] == s@[p + 2]);
                    assert(v / 100 == d0 && (v / 10) % 10 == d1 && v % 10 == d2);
                    assert((v as u16) == 100 * ((v as u16) / 100) + 10 * (((v as u16) / 10) % 10) + (
                    (v as u16) % 10)) by (bit_vector);
                    assert(v as int == 100 * d0 + 10 * d1 + d2);
                    assert(val as int == 100 * d0 + 10 * d1 + d2);
                }
            }
        }
        return None;
    }
    let v = val as u8;
    proof {
        assert((100 * e0 + 10 * e1 + e2) / 100 == e0 && ((100 * e0 + 10 * e1 + e2) / 10) % 10 == e1
            && (100 * e0 + 10 * e1 + e2) % 10 == e2) by (bit_vector)
            requires
                1 <= e0 <= 9 && e1 <= 9 && e2 <= 9,
        ;
        assert(v as int == val as int);
        assert(v >= 100);
        assert(v as int / 100 == d0 && (v as int / 10) % 10 == d1 && v as int % 10 == d2);
        assert(s@.subrange(p as int, p as int + 3) =~= spec_octet_text(v));
    }
    Some((v, p + 3))
}

/// How the canonical dotted-quad text of `a` decomposes: each octet's text
/// stands at its offset as a maximal digit run, with a dot after each of the
/// first three.
proof fn lemma_text_structure(s: Seq<u8>, a: Ipv4Address)
    requires
        s == spec_ipv4_text(a),
    ensures
        ({
            let l1 = spec_octet_text(a.o1).len() as int;
            let l2 = spec_octet_text(a.o2).len() as int;
            let l3 = spec_octet_text(a.o3).len() as int;
            let l4 = spec_octet_text(a.o4).len() as int;
            &&& s.len() == l1 + l2 + l3 + l4 + 3
            &&& octet_at(s, 0, a.o1)
            &&& s[l1] == DOT
            &&& octet_at(s, l1 + 1, a.o2)
            &&& s[l1 + 1 + l2] == DOT
            &&& octet_at(s, l1 + l2 + 2, a.o3)
            &&& s[l1 + l2 + 2 + l3] == DOT
            &&& octet_at(s, l1 + l2 + l3 + 3, a.o4)
        }),
{
    lemma_octet_text_shape(a.o1);
    lemma_octet_text_shape(a.o2);
    lemma_octet_text_shape(a.o3);
    lemma_octet_text_shape(a.o4);
    let t1 = spec_octet_text(a.o1);
    let t2 = spec_octet_text(a.o2);
    let t3 = spec_octet_text(a.o3);
    let t4 = spec_octet_text(a.o4);
    let l1 = t1.len() as int;
    let l2 = t2.len() as int;
    let l3 = t3.len() as int;
    let l4 = t4.len() as int;
    assert(s.len() == l1 + l2 + l3 + l4 + 3);
    assert(s.subrange(0, l1) =~= t1);
    assert(s.subrange(l1 + 1, l1 + 1 + l2) =~= t2);
    assert(s.subrange(l1 + l2 + 2, l1 + l2 + 2 + l3) =~= t3);
    assert(s.subrange(l1 + l2 + l3 + 3, l1 + l2 + l3 + 3 + l4) =~= t4);
    assert(s[l1] == DOT);
    assert(s[l1 + 1 + l2] == DOT);
    assert(s[l1 + l2 + 2 + l3] == DOT);
}

/// No address's text begins without a maximal octet at the front.
proof fn lemma_refute_scan1(s: Seq<u8>)
    requires
        forall|v: u8| !octet_at(s, 0, v),
    ensures
        forall|a: Ipv4Address| s != spec_ipv4_text(a),
{
    assert forall|a: Ipv4Address| s != spec_ipv4_text(a) by {
        if s == spec_ipv4_text(a) {
            lemma_text_structure(s, a);
        }
    }
}

/// In an address's text, a dot follows the first octet.
proof fn lemma_refute_dot1(s: Seq<u8>, v1: u8, e1: int)
    requires
        octet_at(s, 0, v1),
        e1 == spec_octet_text(v1).len(),
        e1 == s.len() || s[e1] != DOT,
    ensures
        forall|a: Ipv4Address| s != spec_ipv4_text(a),
{
    assert forall|a: Ipv4Address| s != spec_ipv4_text(a) by {
        if s == spec_ipv4_text(a) {
            lemma_text_structure(s, a);
            lemma_octet_at_unique(s, 0, v1, a.o1);
        }
    }
}

/// In an address's text, a maximal octet follows the first dot.
proof fn lemma_refute_scan2(s: Seq<u8>, v1: u8, e1: int)
    requires
        octet_at(s, 0, v1),
        e1 == spec_octet_text(v1).len(),
        forall|v: u8| !#[trigger] octet_at(s, e1 + 1, v),
    ensures
        forall|a: Ipv4Address| s != spec_ipv4_text(a),
{
    assert forall|a: Ipv4Address| s != spec_ipv4_text(a) by {
        if s == spec_ipv4_text(a) {
            lemma_text_structure(s, a);
            lemma_octet_at_unique(s, 0, v1, a.o1);
        }
    }
}

/// In an address's text, a dot follows the second octet.
proof fn lemma_refute_dot2(s: Seq<u8>, v1: u8, v2: u8, e2: int)
    requires
        octet_at(s, 0, v1),
        octet_at(s, spec_octet_text(v1).len() as int + 1, v2),
        e2 == spec_octet_text(v1).len() as int + 1 + spec_octet_text(v2).len(),
        e2 == s.len() || s[e2] != DOT,
    ensures
        forall|a: Ipv4Address| s != spec_ipv4_text(a),
{
    assert forall|a: Ipv4Address| s != spec_ipv4_text(a) by {
        if s == spec_ipv4_text(a) {
            lemma_text_structure(s, a);
            lemma_octet_at_unique(s, 0, v1, a.o1);
            lemma_octet_at_unique(s, spec_octet_text(v1).len() as int + 1, v2, a.o2);
        }
    }
}

/// In an address's text, a maximal octet follows the second dot.
proof fn lemma_refute_scan3(s: Seq<u8>, v1: u8, v2: u8, e2: int)
    requires
        octet_at(s, 0, v1),
        octet_at(s, spec_octet_text(v1).len() as int + 1, v2),
        e2 == spec_octet_text(v1).len() as int + 1 + spec_octet_text(v2).len(),
        forall|v: u8| !#[trigger] octet_at(s, e2 + 1, v),
    ensures
        forall|a: Ipv4Address| s != spec_ipv4_text(a),
{
    assert forall|a: Ipv4Address| s != spec_ipv4_text(a) by {
        if s == spec_ipv4_text(a) {
            lemma_text_structure(s, a);
            lemma_octet_at_unique(s, 0, v1, a.o1);
            lemma_octet_at_unique(s, spec_octet_text(v1).len() as int + 1, v2, a.o2);
        }
    }
}

/// In an address's text, a dot follows the third octet.
proof fn lemma_refute_dot3(s: Seq<u8>, v1: u8, v2: u8, v3: u8, e3: int)
    requires
        octet_at(s, 0, v1),
        octet_at(s, spec_octet_text(v1).len() as int + 1, v2),
        octet_at(s, spec_octet_text(v1).len() as int + 1 + spec_octet_text(v2).len() as int + 1, v3),
        e3 == spec_octet_text(v1).len() as int + 1 + spec_octet_text(v2).len() as int + 1 + spec_octet_text(
            v3,
        ).len(),
        e3 == s.len() || s[e3] != DOT,
    ensures
        forall|a: Ipv4Address| s != spec_ipv4_text(a),
{
    assert forall|a: Ipv4Address| s != spec_ipv4_text(a) by {
        if s == spec_ipv4_text(a) {
            lemma_text_structure(s, a);
            lemma_octet_at_unique(s, 0, v1, a.o1);
            lemma_octet_at_unique(s, spec_octet_text(v1).len() as int + 1, v2, a.o2);
            lemma_octet_at_unique(
                s,
                spec_octet_text(v1).len() as int + 1 + spec_octet_text(v2).len() as int + 1,
                v3,
                a.o3,
            );
        }
    }
}

/// In an address's text, a maximal octet follows the third dot.
proof fn lemma_refute_scan4(s: Seq<u8>, v1: u8, v2: u8, v3: u8, e3: int)
    requires
        octet_at(s, 0, v1),
        octet_at(s, spec_octet_text(v1).len() as int + 1, v2),
        octet_at(s, spec_octet_text(v1).len() as int + 1 + spec_octet_text(v2).len() as int + 1, v3),
        e3 == spec_octet_text(v1).len() as int + 1 + spec_octet_text(v2).len() as int + 1 + spec_octet_text(
            v3,
        ).len(),
        forall|v: u8| !#[trigger] octet_at(s, e3 + 1, v),
    ensures
        forall|a: Ipv4Address| s != spec_ipv4_text(a),
{
    assert forall|a: Ipv4Address| s != spec_ipv4_text(a) by {
        if s == spec_ipv4_text(a) {
            lemma_text_structure(s, a);
            lemma_octet_at_unique(s, 0, v1, a.o1);
            lemma_octet_at_unique(s, spec_octet_text(v1).len() as int + 1, v2, a.o2);
            lemma_octet_at_unique(
                s,
                spec_octet_text(v1).len() as int + 1 + spec_octet_text(v2).len() as int + 1,
                v3,
                a.o3,
            );
        }
    }
}

/// In an address's text, nothing follows the fourth octet.
proof fn lemma_refute_tail(s: Seq<u8>, b: Ipv4Address, e4: int)
    requires
        octet_at(s, 0, b.o1),
        octet_at(s, spec_octet_text(b.o1).len() as int + 1, b.o2),
        octet_at(s, spec_octet_text(b.o1).len() as int + 1 + spec_octet_text(b.o2).len() as int + 1, b.o3),
        octet_at(
            s,
            spec_octet_text(b.o1).len() as int + 1 + spec_octet_text(b.o2).len() as int + 1 + spec_octet_text(
                b.o3,
            ).len() + 1,
            b.o4,
        ),
        e4 == spec_octet_text(b.o1).len() as int + 1 + spec_octet_text(b.o2).len() as int + 1 + spec_octet_text(
            b.o3,
        ).len() + 1 + spec_octet_text(b.o4).len(),
        e4 != s.len(),
    ensures
        forall|a: Ipv4Address| s != spec_ipv4_text(a),
{
    assert forall|a: Ipv4Address| s != spec_ipv4_text(a) by {
        if s == spec_ipv4_text(a) {
            lemma_text_structure(s, a);
            lemma_octet_at_unique(s, 0, b.o1, a.o1);
            lemma_octet_at_unique(s, spec_octet_text(a.o1).len() as int + 1, b.o2, a.o2);
            lemma_octet_at_unique(
                s,
                spec_octet_text(a.o1).len() as int + 1 + spec_octet_text(a.o2).len() as int + 1,
                b.o3,
                a.o3,
            );
            lemma_octet_at_unique(
                s,
                spec_octet_text(a.o1).len() as int + 1 + spec_octet_text(a.o2).len() as int + 1
                    + spec_octet_text(a.o3).len() as int + 1,
                b.o4,
                a.o4,
            );
        }
    }
}

/// Four octet texts in place, with dots between and nothing after, make up
/// the canonical text of the quad they spell.
proof fn lemma_assemble(s: Seq<u8>, a: Ipv4Address)
    requires
        octet_at(s, 0, a.o1),
        s[spec_octet_text(a.o1).len() as int] == DOT,
        octet_at(s, spec_octet_text(a.o1).len() as int + 1, a.o2),
        s[spec_octet_text(a.o1).len() as int + 1 + spec_octet_text(a.o2).len()] == DOT,
        octet_at(s, spec_octet_text(a.o1).len() as int + 1 + spec_octet_text(a.o2).len() as int + 1, a.o3),
        s[spec_octet_text(a.o1).len() as int + 1 + spec_octet_text(a.o2).len() as int + 1 + spec_octet_text(
            a.o3,
        ).len()] == DOT,
        octet_at(
            s,
            spec_octet_text(a.o1).len() as int + 1 + spec_octet_text(a.o2).len() as int + 1 + spec_octet_text(
                a.o3,
            ).len() + 1,
            a.o4,
        ),
        s.len() == spec_octet_text(a.o1).len() as int + 1 + spec_octet_text(a.o2).len() as int + 1
            + spec_octet_text(a.o3).len() as int + 1 + spec_octet_text(a.o4).len(),
    ensures
        s == spec_ipv4_text(a),
{
    lemma_chunk_eq(s, 0, spec_octet_text(a.o1));
    lemma_chunk_eq(s, spec_octet_text(a.o1).len() as int + 1, spec_octet_text(a.o2));
    lemma_chunk_eq(
        s,
        spec_octet_text(a.o1).len() as int + 1 + spec_octet_text(a.o2).len() as int + 1,
        spec_octet_text(a.o3),
    );
    lemma_chunk_eq(
        s,
        spec_octet_text(a.o1).len() as int + 1 + spec_octet_text(a.o2).len() as int + 1 + spec_octet_text(
            a.o3,
        ).len() + 1,
        spec_octet_text(a.o4),
    );
    assert(s =~= spec_ipv4_text(a));
}

/// Parses canonical dotted-quad text. The parse succeeds exactly on the
/// canonical text of an address, and returns that address.
pub fn parse_ipv4(s: &[u8]) -> (r: Option<Ipv4Address>)
    ensures
        match r {
            Some(a) => s@ == spec_ipv4_text(a),
            None => forall|a: Ipv4Address| s@ != spec_ipv4_text(a),
        },
{
    let n = s.len();
    let (v1, e1) = match scan_octet(s, 0) {
        Some(pair) => pair,
        None => {
            proof {
                lemma_refute_scan1(s@);
            }
            return None;
        },
    };
    if e1 == n || s[e1] != DOT {
        proof {
            lemma_refute_dot1(s@, v1, e1 as int);
        }
        return None;
    }
    let (v2, e2) = match scan_octet(s, e1 + 1) {
        Some(pair) => pair,
        None => {
            proof {
                lemma_refute_scan2(s@, v1, e1 as int);
            }
            return None;
        },
    };
    if e2 == n || s[e2] != DOT {
        proof {
            lemma_refute_dot2(s@, v1, v2, e2 as int);
        }
        return None;
    }
    let (v3, e3) = match scan_octet(s, e2 + 1) {
        Some(pair) => pair,
        None => {
            proof {
                lemma_refute_scan3(s@, v1, v2, e2 as int);
            }
            return None;
        },
    };
    if e3 == n || s[e3] != DOT {
        proof {
            lemma_refute_dot3(s@, v1, v2, v3, e3 as int);
        }
        return None;
    }
    let (v4, e4) = match scan_octet(s, e3 + 1) {
        Some(pair) => pair,
        None => {
            proof {
                lemma_refute_scan4(s@, v1, v2, v3, e3 as int);
            }
            return None;
        },
    };
    let a = Ipv4Address { o1: v1, o2: v2, o3: v3, o4: v4 };
    if e4 != n {
        proof {
            lemma_refute_tail(s@, a, e4 as int);
        }
        return None;
    }
    proof {
        lemma_assemble(s@, a);
    }
    Some(a)
}

/// The canonical dotted-quad text is unique: two addresses with the same
/// text are the same address.
pub proof fn lemma_text_injective(a: Ipv4Address, b: Ipv4Address)
    requires
        spec_ipv4_text(a) == spec_ipv4_text(b),
    ensures
        a == b,
{
    let s = spec_ipv4_text(a);
    lemma_text_structure(s, a);
    lemma_text_structure(s, b);
    lemma_octet_at_unique(s, 0, a.o1, b.o1);
    lemma_octet_at_unique(s, spec_octet_text(a.o1).len() as int + 1, a.o2, b.o2);
    lemma_octet_at_unique(
        s,
        spec_octet_text(a.o1).len() as int + 1 + spec_octet_text(a.o2).len() as int + 1,
        a.o3,
        b.o3,
    );
    lemma_octet_at_unique(
        s,
        spec_octet_text(a.o1).len() as int + 1 + spec_octet_text(a.o2).len() as int + 1
            + spec_octet_text(a.o3).len() as int + 1,
        a.o4,
        b.o4,
    );
}

/// ASCII whitespace, as trimmed from the ends of the address-check body.
pub open spec fn is_ascii_whitespace(c: u8) -> bool {
    c == 32 || c == 9 || c == 10 || c == 13
}

/// A byte sequence with its leading and trailing ASCII whitespace removed.
pub open spec fn spec_trim(s: Seq<u8>) -> Seq<u8>
    decreases s.len(),
{
    if s.len() > 0 && is_ascii_whitespace(s[0]) {
        spec_trim(s.subrange(1, s.len() as int))
    } else if s.len() > 0 && is_ascii_whitespace(s[s.len() - 1]) {
        spec_trim(s.subrange(0, s.len() - 1))
    } else {
        s
    }
}

/// Removes leading and trailing ASCII whitespace.
pub fn trim_ascii(s: &[u8]) -> (r: &[u8])
    ensures
        r@ == spec_trim(s@),
{
    let n = s.len();
    proof {
        assert(s@.subrange(0, n as int) =~= s@);
    }
    let mut i: usize = 0;
    while i < n && (s[i] == 32 || s[i] == 9 || s[i] == 10 || s[i] == 13)
        invariant
            i <= n,
            n == s@.len(),
            spec_trim(s@) == spec_trim(s@.subrange(i as int, n as int)),
        decreases n - i,
    {
        proof {
            assert(s@.subrange(i as int, n as int).subrange(1, (n - i) as int) =~= s@.subrange(
                i as int + 1,
                n as int,
            ));
        }
        i = i + 1;
    }
    let mut j: usize = n;
    while j > i && (s[j - 1] == 32 || s[j - 1] == 9 || s[j - 1] == 10 || s[j - 1] == 13)
        invariant
            i <= j <= n,
            n == s@.len(),
            i == n || !is_ascii_whitespace(s@[i as int]),
            spec_trim(s@) == spec_trim(s@.subrange(i as int, j as int)),
        decreases j,
    {
        proof {
            let t = s@.subrange(i as int, j as int);
            assert(t[0] == s@[i as int]);
            assert(t[t.len() - 1] == s@[j - 1]);
            assert(t.subrange(0, t.len() - 1) =~= s@.subrange(i as int, j as int - 1));
        }
        j = j - 1;
    }
    proof {
        let t = s@.subrange(i as int, j as int);
        if i < j {
            assert(t[0] == s@[i as int]);
            assert(t[t.len() - 1] == s@[j - 1]);
        }
        assert(spec_trim(t) == t);
    }
    &s[i..j]
}

/// The discovery stage's reading of the address-check response: the body,
/// trimmed of surrounding ASCII whitespace, must read as a dotted-quad IPv4
/// address; anything else is the fatal malformed-address condition.
pub fn parse_discovered(body: &[u8]) -> (r: Result<Ipv4Address, AddressResolutionError>)
    ensures
        match r {
            Ok(a) => spec_trim(body@) == spec_ipv4_text(a),
            Err(e) => {
                &&& e matches AddressResolutionError::InvalidAddressFormat(t) && t@ == spec_trim(
                    body@,
                )
                &&& forall|a: Ipv4Address| spec_trim(body@) != spec_ipv4_text(a)
            },
        },
{
    let t = trim_ascii(body);
    match parse_ipv4(t) {
        Some(a) => Ok(a),
        None => Err(AddressResolutionError::InvalidAddressFormat(vstd::slice::slice_to_vec(t))),
    }
}

} // verus!
