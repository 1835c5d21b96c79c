//! Peer addresses.  A session can only be probed when its address is a
//! well-formed dotted-quad IPv4 address; the grammar lives here together
//! with a verified parser, and the parsed form is what the monitor keeps.

use vstd::prelude::*;
use vstd::string::*;

verus! {

/// A parsed peer address, one field per octet.
#[derive(Debug, Clone, Copy, PartialEq, Eq, Structural, Hash)]
pub struct Ipv4Address {
    pub a: u8,
    pub b: u8,
    pub c: u8,
    pub d: u8,
}

/// A decimal digit, by code point.
pub open spec fn is_dec_digit(c: char) -> bool {
    48 <= c as int && c as int <= 57
}

/// The value of one decimal digit.
pub open spec fn digit_val(c: char) -> int {
    c as int - 48
}

/// The value of a digit string, most significant digit first.
pub open spec fn dec_val(s: Seq<char>) -> int
    decreases s.len(),
{
    if s.len() == 0 {
        0
    } else {
        dec_val(s.drop_last()) * 10 + digit_val(s.last())
    }
}

/// One octet of a dotted quad: one to three digits, no leading zero,
/// value at most 255.
pub open spec fn is_octet(s: Seq<char>) -> bool {
    &&& 1 <= s.len() <= 3
    &&& forall|i: int| 0 <= i < s.len() ==> is_dec_digit(#[trigger] s[i])
    &&& s.len() > 1 ==> s[0] != '0'
    &&& dec_val(s) <= 255
}

/// `i`, `j`, `k` are the positions of the three dots of a dotted quad,
/// and the four pieces between them are octets.
pub open spec fn is_dotted_quad_at(s: Seq<char>, i: int, j: int, k: int) -> bool {
    &&& 0 <= i < j < k < s.len()
    &&& s[i] == '.' && s[j] == '.' && s[k] == '.'
    &&& is_octet(s.subrange(0, i))
    &&& is_octet(s.subrange(i + 1, j))
    &&& is_octet(s.subrange(j + 1, k))
    &&& is_octet(s.subrange(k + 1, s.len() as int))
}

/// A well-formed dotted-quad IPv4 address.
pub open spec fn is_ipv4(s: Seq<char>) -> bool {
    exists|i: int, j: int, k: int| is_dotted_quad_at(s, i, j, k)
}

/// The address value read off a dotted quad split at `i`, `j`, `k`.
pub open spec fn ipv4_at(s: Seq<char>, i: int, j: int, k: int) -> Ipv4Address {
    Ipv4Address {
        a: dec_val(s.subrange(0, i)) as u8,
        b: dec_val(s.subrange(i + 1, j)) as u8,
        c: dec_val(s.subrange(j + 1, k)) as u8,
        d: dec_val(s.subrange(k + 1, s.len() as int)) as u8,
    }
}

/// Parses the piece `s[from..to]` as one octet.
fn parse_octet(s: &str, from: usize, to: usize) -> (r: Option<u8>)
    requires
        from <= to <= s@.len(),
    ensures
        r.is_some() <==> is_octet(s@.subrange(from as int, to as int)),
        r matches Some(v) ==> v as int == dec_val(s@.subrange(from as int, to as int)),
{
    let ghost piece = s@.subrange(from as int, to as int);
    if to - from < 1 || to - from > 3 {
        return None;
    }
    let first = s.get_char(from);
    if to - from > 1 && first == '0' {
        assert(piece[0] == '0');
        return None;
    }
    let mut val: u32 = 0;
    let mut m: usize = from;
    while m < to
        invariant
            from <= m <= to <= s@.len(),
            1 <= to - from <= 3,
            piece == s@.subrange(from as int, to as int),
            val == dec_val(piece.take(m - from)),
            forall|i: int| 0 <= i < m - from ==> is_dec_digit(#[trigger] piece[i]),
            m - from == 0 ==> val == 0,
            m - from == 1 ==> val <= 9,
            m - from == 2 ==> val <= 99,
            m - from == 3 ==> val <= 999,
        decreases to - m,
    {
        let c = s.get_char(m);
        let cv: u32 = c as u32;
        if cv < 48 || cv > 57 {
            assert(piece[m - from] == c);
            assert(!is_dec_digit(piece[m - from]));
            return None;
        }
        proof {
            assert(piece[m - from] == c);
            assert(is_dec_digit(c));
            assert(piece.take(m + 1 - from).drop_last() =~= piece.take(m - from));
            assert(piece.take(m + 1 - from).last() == piece[m - from]);
        }
        val = val * 10 + (cv - 48);
        m = m + 1;
    }
    proof {
        assert(piece.take(to - from) =~= piece);
    }
    if val > 255 {
        return None;
    }
    Some(val as u8)
}

/// Parses a dotted-quad IPv4 address; returns the parsed octets exactly
/// when the string fits the grammar.
pub fn parse_ipv4(s: &str) -> (r: Option<Ipv4Address>)
    ensures
        r.is_some() <==> is_ipv4(s@),
        r matches Some(addr) ==> exists|i: int, j: int, k: int|
            is_dotted_quad_at(s@, i, j, k) && addr == ipv4_at(s@, i, j, k),
{
    let len = s.unicode_len();
    let mut dots: Vec<usize> = Vec::new();
    let mut n: usize = 0;
    while n < len
        invariant
            n <= len,
            len == s@.len(),
            forall|p: int| 0 <= p < n && s@[p] == '.' ==> dots@.contains(p as usize),
            forall|m: int| 0 <= m < dots@.len() ==> (#[trigger] dots@[m]) < n && s@[dots@[m] as int]
                == '.',
            forall|m1: int, m2: int| 0 <= m1 < m2 < dots@.len() ==> dots@[m1] < dots@[m2],
        decreases len - n,
    {
        let c = s.get_char(n);
        let ghost pre = dots@;
        if c == '.' {
            dots.push(n);
            proof {
                assert forall|p: int| 0 <= p < n + 1 && s@[p] == '.' implies dots@.contains(
                    p as usize,
                ) by {
                    if p == n {
                        assert(dots@[dots@.len() - 1] == n as usize);
                    } else {
                        assert(pre.contains(p as usize));
                        let idx = choose|idx: int|
                            0 <= idx < pre.len() && pre[idx] == p as usize;
                        assert(dots@[idx] == p as usize);
                    }
                }
            }
        }
        n = n + 1;
    }
    // Any witness split must use exactly the dot positions collected above:
    // inside an octet every character is a digit, never a dot.
    proof {
        if is_ipv4(s@) {
            let (wi, wj, wk): (int, int, int) = choose|wi: int, wj: int, wk: int|
                is_dotted_quad_at(s@, wi, wj, wk);
            lemma_dots_are_exact(s@, wi, wj, wk, dots@);
            assert(dots@.len() == 3 && is_dotted_quad_at(
                s@,
                dots@[0] as int,
                dots@[1] as int,
                dots@[2] as int,
            ));
        }
    }
    if dots.len() != 3 {
        return None;
    }
    let i = dots[0];
    let j = dots[1];
    let k = dots[2];
    assert(i < j && j < k && k < len);
    let oa = match parse_octet(s, 0, i) {
        Some(v) => v,
        None => {
            return None;
        },
    };
    let ob = match parse_octet(s, i + 1, j) {
        Some(v) => v,
        None => {
            return None;
        },
    };
    let oc = match parse_octet(s, j + 1, k) {
        Some(v) => v,
        None => {
            return None;
        },
    };
    let od = match parse_octet(s, k + 1, len) {
        Some(v) => v,
        None => {
            return None;
        },
    };
    proof {
        assert(is_dotted_quad_at(s@, i as int, j as int, k as int));
    }
    Some(Ipv4Address { a: oa, b: ob, c: oc, d: od })
}

/// If `s` is a dotted quad split at `i < j < k`, then a sequence that
/// holds exactly the dot positions of `s` in increasing order is
/// exactly `[i, j, k]`.
proof fn lemma_dots_are_exact(s: Seq<char>, i: int, j: int, k: int, dots: Seq<usize>)
    requires
        is_dotted_quad_at(s, i, j, k),
        forall|p: int| 0 <= p < s.len() && s[p] == '.' ==> dots.contains(p as usize),
        forall|m: int| 0 <= m < dots.len() ==> (#[trigger] dots[m]) < s.len() && s[dots[m] as int]
            == '.',
        forall|m1: int, m2: int| 0 <= m1 < m2 < dots.len() ==> dots[m1] < dots[m2],
    ensures
        dots.len() == 3,
        dots[0] == i && dots[1] == j && dots[2] == k,
{
    assert forall|p: int| 0 <= p < s.len() && s[p] == '.' implies p == i || p == j || p == k by {
        if p != i && p != j && p != k {
            if p < i {
                assert(s.subrange(0, i)[p] == s[p]);
                assert(is_dec_digit(s.subrange(0, i)[p]));
            } else if p < j {
                assert(s.subrange(i + 1, j)[p - i - 1] == s[p]);
                assert(is_dec_digit(s.subrange(i + 1, j)[p - i - 1]));
            } else if p < k {
                assert(s.subrange(j + 1, k)[p - j - 1] == s[p]);
                assert(is_dec_digit(s.subrange(j + 1, k)[p - j - 1]));
            } else {
                assert(s.subrange(k + 1, s.len() as int)[p - k - 1] == s[p]);
                assert(is_dec_digit(s.subrange(k + 1, s.len() as int)[p - k - 1]));
            }
            assert(s[p] != '.');
        }
    }
    assert(dots.contains(i as usize));
    assert(dots.contains(j as usize));
    assert(dots.contains(k as usize));
    let mi = choose|m: int| 0 <= m < dots.len() && dots[m] == i as usize;
    let mj = choose|m: int| 0 <= m < dots.len() && dots[m] == j as usize;
    let mk = choose|m: int| 0 <= m < dots.len() && dots[m] == k as usize;
    // The three dots appear in order, starting at index 0 with nothing
    // between or after them.
    if mi != 0 {
        assert((dots[0] as int) < i);
        assert(dots[0] == i as usize || dots[0] == j as usize || dots[0] == k as usize);
        assert(false);
    }
    if mj != 1 {
        assert(mj != 0);
        assert(1 < dots.len());
        assert((dots[1] as int) < j);
        assert(i < dots[1] as int);
        assert(dots[1] == i as usize || dots[1] == j as usize || dots[1] == k as usize);
        assert(false);
    }
    if mk != 2 {
        assert(mk != 0 && mk != 1);
        assert(2 < dots.len());
        assert((dots[2] as int) < k);
        assert(j < dots[2] as int);
        assert(dots[2] == i as usize || dots[2] == j as usize || dots[2] == k as usize);
        assert(false);
    }
    if dots.len() > 3 {
        assert(k < dots[3] as int);
        assert(dots[3] == i as usize || dots[3] == j as usize || dots[3] == k as usize);
        assert(false);
    }
}

} // verus!
