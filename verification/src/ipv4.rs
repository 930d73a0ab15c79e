//! IPv4 addresses and strict parsing of their dotted-decimal text form.
//!
//! A provider's response body is accepted only if the whole body spells an
//! IPv4 address: four decimal components separated by single dots, each
//! between 0 and 255, with no leading zeros and no surrounding whitespace.

use vstd::prelude::*;

verus! {

/// An IPv4 address, stored as its four octets.
#[derive(Clone, Copy, Debug, PartialEq, Eq, Structural)]
pub struct Ipv4 {
    pub a: u8,
    pub b: u8,
    pub c: u8,
    pub d: u8,
}

impl Ipv4 {
    pub fn new(a: u8, b: u8, c: u8, d: u8) -> (r: Ipv4)
        ensures
            r == (Ipv4 { a, b, c, d }),
    {
        Ipv4 { a, b, c, d }
    }
}

/// ASCII `'0'` through `'9'`.
pub open spec fn is_ascii_digit(b: u8) -> bool {
    48 <= b && b <= 57
}

/// The number spelled by a sequence of decimal digit bytes, most
/// significant digit first.
pub open spec fn decimal_value(s: Seq<u8>) -> int
    decreases s.len(),
{
    if s.len() == 0 {
        0
    } else {
        decimal_value(s.drop_last()) * 10 + (s.last() - 48)
    }
}

/// A strict dotted-decimal component: one to three digits, no leading zero
/// unless the component is exactly "0", and value at most 255.
pub open spec fn is_octet_text(s: Seq<u8>) -> bool {
    &&& 1 <= s.len() <= 3
    &&& (forall|i: int| 0 <= i < s.len() ==> is_ascii_digit(s[i]))
    &&& (s.len() > 1 ==> s[0] != 48)
    &&& decimal_value(s) <= 255
}

/// The octet a component spells, if it is a strict dotted-decimal component.
pub open spec fn spec_parse_octet(s: Seq<u8>) -> Option<u8> {
    if is_octet_text(s) {
        Some(decimal_value(s) as u8)
    } else {
        None
    }
}

/// Position of the first `'.'` in `s`, if any.
pub open spec fn first_dot(s: Seq<u8>) -> Option<int>
    decreases s.len(),
{
    if s.len() == 0 {
        None
    } else if s[0] == 46 {
        Some(0 as int)
    } else {
        match first_dot(s.drop_first()) {
            Some(i) => Some(i + 1),
            None => None,
        }
    }
}

/// The values of `n` dot-separated strict components spelled by `s`,
/// covering all of `s`.
pub open spec fn spec_parse_parts(s: Seq<u8>, n: nat) -> Option<Seq<u8>>
    decreases n,
{
    if n <= 1 {
        match spec_parse_octet(s) {
            Some(v) => Some(seq![v]),
            None => None,
        }
    } else {
        match first_dot(s) {
            Some(i) => match spec_parse_octet(s.take(i)) {
                Some(v) => match spec_parse_parts(s.skip(i + 1), (n - 1) as nat) {
                    Some(rest) => Some(seq![v] + rest),
                    None => None,
                },
                None => None,
            },
            None => None,
        }
    }
}

/// The address `s` spells in strict dotted-decimal form, if any.
pub open spec fn spec_parse_ipv4(s: Seq<u8>) -> Option<Ipv4> {
    match spec_parse_parts(s, 4) {
        Some(vs) => Some(Ipv4 { a: vs[0], b: vs[1], c: vs[2], d: vs[3] }),
        None => None,
    }
}

proof fn lemma_first_dot_at(s: Seq<u8>, i: int)
    requires
        0 <= i < s.len(),
        s[i] == 46,
        forall|k: int| 0 <= k < i ==> s[k] != 46,
    ensures
        first_dot(s) == Some(i),
    decreases i,
{
    if i == 0 {
    } else {
        assert(s[0] != 46);
        assert(s.drop_first()[i - 1] == s[i]);
        assert(forall|k: int| 0 <= k < i - 1 ==> s.drop_first()[k] == s[k + 1] && s[k + 1] != 46);
        lemma_first_dot_at(s.drop_first(), i - 1);
    }
}

proof fn lemma_first_dot_none(s: Seq<u8>)
    requires
        forall|k: int| 0 <= k < s.len() ==> s[k] != 46,
    ensures
        first_dot(s) is None,
    decreases s.len(),
{
    if s.len() == 0 {
    } else {
        assert(forall|k: int| 0 <= k < s.len() - 1 ==> s.drop_first()[k] == s[k + 1] && s[k + 1] != 46);
        lemma_first_dot_none(s.drop_first());
    }
}

fn find_dot_from(s: &Vec<u8>, from: usize) -> (r: Option<usize>)
    requires
        from <= s@.len(),
    ensures
        match r {
            Some(i) => from <= i && (i as int) < s@.len() && s@[i as int] == 46
                && (forall|k: int| from <= k < i ==> s@[k] != 46),
            None => forall|k: int| from <= k < s@.len() ==> s@[k] != 46,
        },
{
    let mut i: usize = from;
    while i < s.len()
        invariant
            from <= i <= s@.len(),
            forall|k: int| from <= k < i ==> s@[k] != 46,
        decreases s@.len() - i,
    {
        if s[i] == 46 {
            return Some(i);
        }
        i = i + 1;
    }
    None
}

fn parse_octet(s: &Vec<u8>, start: usize, end: usize) -> (r: Option<u8>)
    requires
        start <= end <= s@.len(),
    ensures
        r == spec_parse_octet(s@.subrange(start as int, end as int)),
{
    let ghost seg = s@.subrange(start as int, end as int);
    proof {
        reveal_with_fuel(decimal_value, 4);
    }
    let len: usize = end - start;
    if len < 1 || len > 3 {
        return None;
    }
    let b0 = s[start];
    assert(seg[0] == b0);
    if !(48 <= b0 && b0 <= 57) {
        assert(!is_octet_text(seg)) by {
            assert(!is_ascii_digit(seg[0]));
        }
        return None;
    }
    if len == 1 {
        proof {
            assert(seg.last() == b0);
            assert(seg.drop_last() =~= Seq::<u8>::empty());
            assert(decimal_value(seg) == b0 - 48);
            assert(is_octet_text(seg));
        }
        return Some(b0 - 48);
    }
    if b0 == 48 {
        assert(!is_octet_text(seg));
        return None;
    }
    let b1 = s[start + 1];
    assert(seg[1] == b1);
    if !(48 <= b1 && b1 <= 57) {
        assert(!is_octet_text(seg)) by {
            assert(!is_ascii_digit(seg[1]));
        }
        return None;
    }
    if len == 2 {
        proof {
            assert(seg.last() == b1);
            let head = seg.drop_last();
            assert(head =~= seq![b0]);
            assert(head.drop_last() =~= Seq::<u8>::empty());
            assert(decimal_value(head) == b0 - 48);
            assert(decimal_value(seg) == (b0 - 48) * 10 + (b1 - 48));
            assert(decimal_value(seg) <= 99);
            assert(is_octet_text(seg));
        }
        let v: u8 = (b0 - 48) * 10 + (b1 - 48);
        return Some(v);
    }
    let b2 = s[start + 2];
    assert(seg[2] == b2);
    if !(48 <= b2 && b2 <= 57) {
        assert(!is_octet_text(seg)) by {
            assert(!is_ascii_digit(seg[2]));
        }
        return None;
    }
    let v: u32 = (b0 - 48) as u32 * 100 + (b1 - 48) as u32 * 10 + (b2 - 48) as u32;
    proof {
        assert(seg.last() == b2);
        let head = seg.drop_last();
        assert(head =~= seq![b0, b1]);
        let head2 = head.drop_last();
        assert(head2 =~= seq![b0]);
        assert(head2.drop_last() =~= Seq::<u8>::empty());
        assert(decimal_value(head2) == b0 - 48);
        assert(decimal_value(head) == (b0 - 48) * 10 + (b1 - 48));
        assert(decimal_value(seg) == v);
    }
    if v > 255 {
        assert(!is_octet_text(seg));
        return None;
    }
    assert(is_octet_text(seg));
    Some(v as u8)
}

/// Parse a provider's response body strictly as a dotted-decimal IPv4
/// address; any deviation from that form yields `None`.
#[verifier::rlimit(60)]
pub fn parse_ipv4(s: &Vec<u8>) -> (r: Option<Ipv4>)
    ensures
        r == spec_parse_ipv4(s@),
{
    let n: usize = s.len();
    let ghost whole = s@;
    proof {
        reveal_with_fuel(spec_parse_parts, 5);
        assert(whole.len() == n);
    }

    // First component, up to the first dot.
    let i: usize = match find_dot_from(s, 0) {
        Some(i) => i,
        None => {
            proof {
                lemma_first_dot_none(whole);
            }
            return None;
        },
    };
    proof {
        lemma_first_dot_at(whole, i as int);
        assert(whole.take(i as int) =~= whole.subrange(0, i as int));
    }
    let a = match parse_octet(s, 0, i) {
        Some(v) => v,
        None => {
            return None;
        },
    };

    // Second component.
    let ghost rest1 = whole.skip(i + 1);
    let j: usize = match find_dot_from(s, i + 1) {
        Some(j) => j,
        None => {
            proof {
                assert(forall|k: int| 0 <= k < rest1.len() ==> rest1[k] == whole[i + 1 + k]);
                lemma_first_dot_none(rest1);
            }
            return None;
        },
    };
    proof {
        assert(forall|k: int| 0 <= k < rest1.len() ==> rest1[k] == whole[i + 1 + k]);
        assert(rest1[j - (i + 1)] == 46);
        lemma_first_dot_at(rest1, j - (i + 1));
        assert(rest1.take(j - (i + 1)) =~= whole.subrange(i + 1, j as int));
    }
    let b = match parse_octet(s, i + 1, j) {
        Some(v) => v,
        None => {
            return None;
        },
    };

    // Third component.
    let ghost rest2 = rest1.skip(j - (i + 1) + 1);
    proof {
        assert(rest2 =~= whole.skip(j + 1));
    }
    let k: usize = match find_dot_from(s, j + 1) {
        Some(k) => k,
        None => {
            proof {
                assert(forall|m: int| 0 <= m < rest2.len() ==> rest2[m] == whole[j + 1 + m]);
                lemma_first_dot_none(rest2);
            }
            return None;
        },
    };
    proof {
        assert(forall|m: int| 0 <= m < rest2.len() ==> rest2[m] == whole[j + 1 + m]);
        assert(rest2[k - (j + 1)] == 46);
        lemma_first_dot_at(rest2, k - (j + 1));
        assert(rest2.take(k - (j + 1)) =~= whole.subrange(j + 1, k as int));
    }
    let c = match parse_octet(s, j + 1, k) {
        Some(v) => v,
        None => {
            return None;
        },
    };

    // Fourth component, the remainder of the body.
    let ghost rest3 = rest2.skip(k - (j + 1) + 1);
    proof {
        assert(rest3 =~= whole.subrange(k + 1, n as int));
    }
    let d = match parse_octet(s, k + 1, n) {
        Some(v) => v,
        None => {
            return None;
        },
    };

    proof {
        assert(spec_parse_parts(rest2, 2) == Some(seq![c, d])) by {
            assert(seq![c] + seq![d] =~= seq![c, d]);
        }
        assert(spec_parse_parts(rest1, 3) == Some(seq![b, c, d])) by {
            assert(seq![b] + seq![c, d] =~= seq![b, c, d]);
        }
        assert(spec_parse_parts(whole, 4) == Some(seq![a, b, c, d])) by {
            assert(seq![a] + seq![b, c, d] =~= seq![a, b, c, d]);
        }
    }
    Some(Ipv4 { a, b, c, d })
}

} // verus!
