use vstd::prelude::*;
use vstd::string::*;

use crate::text::{append_decimal, decimal_text, digit_char, is_digit, lemma_digit_char};

verus! {

/// An IPv4 address held as its four octets, most significant first.
#[derive(Clone, Copy, Debug, PartialEq, Eq, Structural)]
pub struct Ipv4 {
    pub a: u8,
    pub b: u8,
    pub c: u8,
    pub d: u8,
}

/// Canonical decimal text of an octet: no sign, no leading zeros.
pub open spec fn octet_text(n: u8) -> Seq<char> {
    let v = n as int;
    if v < 10 {
        seq![digit_char(v)]
    } else if v < 100 {
        seq![digit_char(v / 10), digit_char(v % 10)]
    } else {
        seq![digit_char(v / 100), digit_char((v / 10) % 10), digit_char(v % 10)]
    }
}

/// Canonical dotted-quad text of an address, as in `10.0.0.4`.
pub open spec fn ipv4_text(x: Ipv4) -> Seq<char> {
    octet_text(x.a) + seq!['.'] + octet_text(x.b) + seq!['.'] + octet_text(x.c) + seq!['.']
        + octet_text(x.d)
}

/// The address whose canonical text is `s`, if there is one.
pub open spec fn addr_of_text(s: Seq<char>) -> Option<Ipv4> {
    if exists|x: Ipv4| ipv4_text(x) == s {
        Some(choose|x: Ipv4| ipv4_text(x) == s)
    } else {
        None
    }
}

/// The text of `v` stands in `s` at `i`, and is not followed by a further digit.
#[verifier::opaque]
pub open spec fn octet_at(s: Seq<char>, i: int, v: u8) -> bool {
    let t = octet_text(v);
    &&& 0 <= i
    &&& i + t.len() <= s.len()
    &&& s.subrange(i, i + t.len()) == t
    &&& (i + t.len() == s.len() || !is_digit(s[i + t.len()]))
}

proof fn lemma_octet_text_digits(v: u8)
    ensures
        1 <= octet_text(v).len() <= 3,
        forall|j: int| 0 <= j < octet_text(v).len() ==> is_digit(#[trigger] octet_text(v)[j]),
        (octet_text(v).len() == 1) == (v < 10),
        (octet_text(v).len() == 2) == (10 <= v < 100),
        octet_text(v).len() > 1 ==> octet_text(v)[0] != '0',
{
    let x = v as int;
    lemma_digit_char(x % 10);
    if x < 10 {
        lemma_digit_char(x);
    } else if x < 100 {
        lemma_digit_char(x / 10);
    } else {
        lemma_digit_char(x / 100);
        lemma_digit_char((x / 10) % 10);
    }
}

fn is_digit_char(c: char) -> (r: bool)
    ensures
        r == is_digit(c),
{
    let u = c as u32;
    48 <= u && u <= 57
}

/// Reads the octet that starts at `i`: one to three digits, without a leading zero, at most 255,
/// and not followed by a further digit.
fn parse_octet(s: &str, n: usize, i: usize) -> (r: Option<(u8, usize)>)
    requires
        n == s@.len(),
        i <= n,
    ensures
        match r {
            Some((v, j)) => {
                &&& octet_at(s@, i as int, v)
                &&& j == i + octet_text(v).len()
                &&& forall|w: u8| octet_at(s@, i as int, w) ==> w == v
            },
            None => forall|v: u8| !octet_at(s@, i as int, v),
        },
{
    reveal(octet_at);
    let ghost sv = s@;
    if i == n {
        proof {
            assert forall|v: u8| !octet_at(sv, i as int, v) by {
                lemma_octet_text_digits(v);
            }
        }
        return None;
    }
    let c0 = s.get_char(i);
    if !is_digit_char(c0) {
        proof {
            assert forall|v: u8| !octet_at(sv, i as int, v) by {
                lemma_octet_text_digits(v);
                if octet_at(sv, i as int, v) {
                    assert(sv.subrange(i as int, i + octet_text(v).len())[0] == c0);
                }
            }
        }
        return None;
    }
    let d0 = (c0 as u32 - 48) as u8;
    proof {
        lemma_digit_char(d0 as int);
    }
    if i + 1 == n || !is_digit_char(s.get_char(i + 1)) {
        proof {
            assert(sv.subrange(i as int, i + 1) =~= octet_text(d0));
            assert forall|v: u8| octet_at(sv, i as int, v) implies v == d0 by {
                lemma_octet_text_digits(v);
                let t = octet_text(v);
                assert(sv.subrange(i as int, i + t.len())[0] == t[0]);
                if t.len() > 1 {
                    assert(sv.subrange(i as int, i + t.len())[1] == t[1]);
                }
                lemma_digit_char(v as int);
            }
        }
        return Some((d0, i + 1));
    }
    let c1 = s.get_char(i + 1);
    if d0 == 0 {
        proof {
            assert forall|v: u8| !octet_at(sv, i as int, v) by {
                lemma_octet_text_digits(v);
                let t = octet_text(v);
                if octet_at(sv, i as int, v) {
                    assert(sv.subrange(i as int, i + t.len())[0] == t[0]);
                    if t.len() == 1 {
                        lemma_digit_char(v as int);
                    }
                }
            }
        }
        return None;
    }
    let d1 = (c1 as u32 - 48) as u8;
    proof {
        lemma_digit_char(d1 as int);
    }
    if i + 2 == n || !is_digit_char(s.get_char(i + 2)) {
        let v = 10 * d0 + d1;
        proof {
            assert(sv.subrange(i as int, i + 2) =~= octet_text(v));
            assert forall|w: u8| octet_at(sv, i as int, w) implies w == v by {
                lemma_octet_text_digits(w);
                let t = octet_text(w);
                let x = w as int;
                assert(sv.subrange(i as int, i + t.len())[0] == t[0]);
                if t.len() > 1 {
                    assert(sv.subrange(i as int, i + t.len())[1] == t[1]);
                }
                if t.len() > 2 {
                    assert(sv.subrange(i as int, i + t.len())[2] == t[2]);
                }
                lemma_digit_char(x / 10);
                lemma_digit_char(x % 10);
            }
        }
        return Some((v, i + 2));
    }
    let c2 = s.get_char(i + 2);
    let d2 = (c2 as u32 - 48) as u8;
    proof {
        lemma_digit_char(d2 as int);
    }
    let value: u32 = 100 * (d0 as u32) + 10 * (d1 as u32) + d2 as u32;
    if value > 255 || (i + 3 < n && is_digit_char(s.get_char(i + 3))) {
        proof {
            assert forall|w: u8| !octet_at(sv, i as int, w) by {
                lemma_octet_text_digits(w);
                let t = octet_text(w);
                let x = w as int;
                if octet_at(sv, i as int, w) {
                    assert(sv.subrange(i as int, i + t.len())[0] == t[0]);
                    if t.len() > 1 {
                        assert(sv.subrange(i as int, i + t.len())[1] == t[1]);
                    }
                    if t.len() > 2 {
                        assert(sv.subrange(i as int, i + t.len())[2] == t[2]);
                    }
                    lemma_digit_char(x / 100);
                    lemma_digit_char((x / 10) % 10);
                    lemma_digit_char(x % 10);
                }
            }
        }
        return None;
    }
    let v = value as u8;
    proof {
        assert(sv.subrange(i as int, i + 3) =~= octet_text(v));
        assert forall|w: u8| octet_at(sv, i as int, w) implies w == v by {
            lemma_octet_text_digits(w);
            let t = octet_text(w);
            let x = w as int;
            assert(sv.subrange(i as int, i + t.len())[0] == t[0]);
            if t.len() > 1 {
                assert(sv.subrange(i as int, i + t.len())[1] == t[1]);
            }
            if t.len() > 2 {
                assert(sv.subrange(i as int, i + t.len())[2] == t[2]);
            }
            lemma_digit_char(x / 100);
            lemma_digit_char((x / 10) % 10);
            lemma_digit_char(x % 10);
        }
    }
    Some((v, i + 3))
}

proof fn lemma_text_layout(x: Ipv4)
    ensures
        ({
            let s = ipv4_text(x);
            let la = octet_text(x.a).len() as int;
            let lb = octet_text(x.b).len() as int;
            let lc = octet_text(x.c).len() as int;
            let ld = octet_text(x.d).len() as int;
            &&& s.len() == la + lb + lc + ld + 3
            &&& octet_at(s, 0, x.a)
            &&& s[la] == '.'
            &&& octet_at(s, la + 1, x.b)
            &&& s[la + lb + 1] == '.'
            &&& octet_at(s, la + lb + 2, x.c)
            &&& s[la + lb + lc + 2] == '.'
            &&& octet_at(s, la + lb + lc + 3, x.d)
        }),
{
    reveal(octet_at);
    let s = ipv4_text(x);
    let ta = octet_text(x.a);
    let tb = octet_text(x.b);
    let tc = octet_text(x.c);
    let td = octet_text(x.d);
    let la = ta.len() as int;
    let lb = tb.len() as int;
    let lc = tc.len() as int;
    let ld = td.len() as int;
    lemma_octet_text_digits(x.a);
    lemma_octet_text_digits(x.b);
    lemma_octet_text_digits(x.c);
    lemma_octet_text_digits(x.d);
    assert(s.subrange(0, la) =~= ta);
    assert(s.subrange(la + 1, la + 1 + lb) =~= tb);
    assert(s.subrange(la + lb + 2, la + lb + 2 + lc) =~= tc);
    assert(s.subrange(la + lb + lc + 3, la + lb + lc + 3 + ld) =~= td);
    assert(s[la] == '.');
    assert(s[la + lb + 1] == '.');
    assert(s[la + lb + lc + 2] == '.');
}

proof fn lemma_octet_at_unique(s: Seq<char>, i: int, v: u8, w: u8)
    requires
        octet_at(s, i, v),
        octet_at(s, i, w),
    ensures
        v == w,
{
    reveal(octet_at);
    lemma_octet_text_digits(v);
    lemma_octet_text_digits(w);
    let tv = octet_text(v);
    let tw = octet_text(w);
    if tv.len() < tw.len() {
        assert(s.subrange(i, i + tw.len())[tv.len() as int] == tw[tv.len() as int]);
    } else if tw.len() < tv.len() {
        assert(s.subrange(i, i + tv.len())[tw.len() as int] == tv[tw.len() as int]);
    } else {
        assert(tv == tw);
        let x = v as int;
        let y = w as int;
        assert(tv[0] == tw[0]);
        lemma_digit_char(x % 10);
        lemma_digit_char(y % 10);
        if tv.len() == 1 {
            lemma_digit_char(x);
            lemma_digit_char(y);
        } else if tv.len() == 2 {
            assert(tv[1] == tw[1]);
            lemma_digit_char(x / 10);
            lemma_digit_char(y / 10);
        } else {
            assert(tv[1] == tw[1]);
            assert(tv[2] == tw[2]);
            lemma_digit_char(x / 100);
            lemma_digit_char(y / 100);
            lemma_digit_char((x / 10) % 10);
            lemma_digit_char((y / 10) % 10);
        }
    }
}

/// Two addresses with the same canonical text are equal.
pub proof fn lemma_text_unique(x: Ipv4, y: Ipv4)
    requires
        ipv4_text(x) == ipv4_text(y),
    ensures
        x == y,
{
    let s = ipv4_text(x);
    lemma_text_layout(x);
    lemma_text_layout(y);
    lemma_octet_at_unique(s, 0, x.a, y.a);
    let la = octet_text(x.a).len() as int;
    lemma_octet_at_unique(s, la + 1, x.b, y.b);
    let lb = octet_text(x.b).len() as int;
    lemma_octet_at_unique(s, la + lb + 2, x.c, y.c);
    let lc = octet_text(x.c).len() as int;
    lemma_octet_at_unique(s, la + lb + lc + 3, x.d, y.d);
}

proof fn lemma_assemble(s: Seq<char>, x: Ipv4, i: int, j: int, k: int)
    requires
        octet_at(s, 0, x.a),
        i == octet_text(x.a).len(),
        s[i] == '.',
        octet_at(s, i + 1, x.b),
        j == i + 1 + octet_text(x.b).len(),
        s[j] == '.',
        octet_at(s, j + 1, x.c),
        k == j + 1 + octet_text(x.c).len(),
        s[k] == '.',
        octet_at(s, k + 1, x.d),
        s.len() == k + 1 + octet_text(x.d).len(),
    ensures
        ipv4_text(x) == s,
{
    reveal(octet_at);
    let m = s.len() as int;
    assert(s =~= s.subrange(0, i) + seq!['.'] + s.subrange(i + 1, j) + seq!['.'] + s.subrange(
        j + 1,
        k,
    ) + seq!['.'] + s.subrange(k + 1, m));
}

/// Reads `.` at `i`.
fn dot_at(s: &str, n: usize, i: usize) -> (r: bool)
    requires
        n == s@.len(),
    ensures
        r == (i < n && s@[i as int] == '.'),
{
    i < n && s.get_char(i) == '.'
}

#[verifier::spinoff_prover]
#[verifier::rlimit(40)]
fn parse_quad(s: &str) -> (r: Option<Ipv4>)
    ensures
        match r {
            Some(x) => ipv4_text(x) == s@,
            None => forall|x: Ipv4| ipv4_text(x) != s@,
        },
{
    let n = s.unicode_len();
    let ghost sv = s@;
    let (a, i) = match parse_octet(s, n, 0) {
        Some(p) => p,
        None => {
            proof {
                assert forall|x: Ipv4| ipv4_text(x) != sv by {
                    lemma_text_layout(x);
                }
            }
            return None;
        },
    };
    if !dot_at(s, n, i) {
        proof {
            assert forall|x: Ipv4| ipv4_text(x) != sv by {
                lemma_text_layout(x);
            }
        }
        return None;
    }
    let (b, j) = match parse_octet(s, n, i + 1) {
        Some(p) => p,
        None => {
            proof {
                assert forall|x: Ipv4| ipv4_text(x) != sv by {
                    lemma_text_layout(x);
                }
            }
            return None;
        },
    };
    if !dot_at(s, n, j) {
        proof {
            assert forall|x: Ipv4| ipv4_text(x) != sv by {
                lemma_text_layout(x);
            }
        }
        return None;
    }
    let (c, k) = match parse_octet(s, n, j + 1) {
        Some(p) => p,
        None => {
            proof {
                assert forall|x: Ipv4| ipv4_text(x) != sv by {
                    lemma_text_layout(x);
                }
            }
            return None;
        },
    };
    if !dot_at(s, n, k) {
        proof {
            assert forall|x: Ipv4| ipv4_text(x) != sv by {
                lemma_text_layout(x);
            }
        }
        return None;
    }
    let (d, m) = match parse_octet(s, n, k + 1) {
        Some(p) => p,
        None => {
            proof {
                assert forall|x: Ipv4| ipv4_text(x) != sv by {
                    lemma_text_layout(x);
                }
            }
            return None;
        },
    };
    if m != n {
        proof {
            assert forall|x: Ipv4| ipv4_text(x) != sv by {
                lemma_text_layout(x);
            }
        }
        return None;
    }
    let x = Ipv4 { a, b, c, d };
    proof {
        lemma_assemble(sv, x, i as int, j as int, k as int);
    }
    Some(x)
}

/// Parses the canonical dotted-quad text of an IPv4 address.
///
/// Each of the four fields is a decimal number from 0 to 255 written without leading zeros, so
/// that each address has exactly one accepted text.
pub fn parse_ipv4(s: &str) -> (r: Option<Ipv4>)
    ensures
        match r {
            Some(x) => ipv4_text(x) == s@ && forall|y: Ipv4| ipv4_text(y) == s@ ==> y == x,
            None => forall|x: Ipv4| ipv4_text(x) != s@,
        },
        r == addr_of_text(s@),
{
    let r = parse_quad(s);
    proof {
        if let Some(x) = r {
            assert forall|y: Ipv4| ipv4_text(y) == s@ implies y == x by {
                lemma_text_unique(x, y);
            }
        }
    }
    r
}

proof fn lemma_octet_decimal(v: u8)
    ensures
        octet_text(v) == decimal_text(v as nat),
{
    let n = v as nat;
    if n >= 10 {
        assert(decimal_text(n) == decimal_text(n / 10) + seq![digit_char((n % 10) as int)]);
        if n >= 100 {
            assert(decimal_text(n / 10) == decimal_text(n / 100) + seq![
                digit_char(((n / 10) % 10) as int),
            ]);
            assert(decimal_text(n / 100) == seq![digit_char((n / 100) as int)]);
        } else {
            assert(decimal_text(n / 10) == seq![digit_char((n / 10) as int)]);
        }
        assert(octet_text(v) =~= decimal_text(n));
    }
}

/// Writes the canonical dotted-quad text of an address.
pub fn ipv4_to_string(x: Ipv4) -> (r: String)
    ensures
        r@ == ipv4_text(x),
{
    proof {
        reveal_strlit(".");
        lemma_octet_decimal(x.a);
        lemma_octet_decimal(x.b);
        lemma_octet_decimal(x.c);
        lemma_octet_decimal(x.d);
    }
    let mut s = String::new();
    append_decimal(&mut s, x.a as u32);
    s.append(".");
    append_decimal(&mut s, x.b as u32);
    s.append(".");
    append_decimal(&mut s, x.c as u32);
    s.append(".");
    append_decimal(&mut s, x.d as u32);
    proof {
        assert(s@ =~= ipv4_text(x));
    }
    s
}

/// The address held in four bytes in network order.
pub fn ipv4_from_octets(o: [u8; 4]) -> (r: Ipv4)
    ensures
        r == octets_addr(o@),
{
    Ipv4 { a: o[0], b: o[1], c: o[2], d: o[3] }
}

/// The address that four bytes in network order hold.
pub open spec fn octets_addr(o: Seq<u8>) -> Ipv4 {
    Ipv4 { a: o[0], b: o[1], c: o[2], d: o[3] }
}

} // verus!
