use vstd::prelude::*;
use vstd::string::StrSliceExecFns;
use vstd::string::StringExecFns;

verus! {

/// An IPv4 address: its four octets, most significant first.
#[derive(Clone, Copy, Debug, PartialEq, Eq, Structural)]
pub struct Ipv4 {
    pub a: u8,
    pub b: u8,
    pub c: u8,
    pub d: u8,
}

/// One address out of a name resolution: either family.
#[derive(Clone, Copy, Debug, PartialEq, Eq, Structural)]
pub enum HostAddr {
    V4(Ipv4),
    V6(u128),
}

pub open spec fn digit_char(d: int) -> char {
    ((d + 48) as u32) as char
}

pub open spec fn is_digit(c: char) -> bool {
    '0' <= c <= '9'
}

/// The decimal digits of an octet, without leading zeros.
pub open spec fn octet_text(n: u8) -> Seq<char> {
    if n < 10 {
        seq![digit_char(n as int)]
    } else if n < 100 {
        seq![digit_char(n as int / 10), digit_char(n as int % 10)]
    } else {
        seq![digit_char(n as int / 100), digit_char((n as int / 10) % 10), digit_char(n as int % 10)]
    }
}

/// The dotted-decimal literal of an address, as in `203.0.113.5`.
pub open spec fn dotted(ip: Ipv4) -> Seq<char> {
    octet_text(ip.a) + seq!['.'] + octet_text(ip.b) + seq!['.'] + octet_text(ip.c) + seq!['.']
        + octet_text(ip.d)
}

/// The IPv4 entries of a resolution result, in the order given.
pub open spec fn v4_entries(addrs: Seq<HostAddr>) -> Seq<Ipv4>
    decreases addrs.len(),
{
    if addrs.len() == 0 {
        Seq::empty()
    } else {
        let rest = v4_entries(addrs.drop_first());
        match addrs[0] {
            HostAddr::V4(ip) => seq![ip] + rest,
            HostAddr::V6(_) => rest,
        }
    }
}

/// The length of an octet's text, and that it is made of digits with no leading zero.
proof fn lemma_octet_text(n: u8)
    ensures
        octet_text(n).len() == if n < 10 {
            1int
        } else if n < 100 {
            2int
        } else {
            3int
        },
        forall|i: int| 0 <= i < octet_text(n).len() ==> is_digit(#[trigger] octet_text(n)[i]),
        octet_text(n).len() > 1 ==> octet_text(n)[0] != '0',
{
}

/// `v` is written at `start` of `s`, ending at `e`, with no digit right after it.
#[verifier::opaque]
pub open spec fn octet_at(s: Seq<char>, start: int, v: u8, e: int) -> bool {
    &&& 0 <= start < e <= s.len()
    &&& s.subrange(start, e) == octet_text(v)
    &&& (e == s.len() || !is_digit(s[e]))
}

fn is_digit_char(c: char) -> (r: bool)
    ensures
        r == is_digit(c),
{
    '0' <= c && c <= '9'
}

/// Reads one octet starting at `start`: the longest run of digits there, which must
/// be the canonical decimal text of a value up to 255.
fn read_octet(text: &str, len: usize, start: usize) -> (r: Option<(u8, usize)>)
    requires
        len == text@.len(),
        start <= len,
    ensures
        r matches Some((v, e)) ==> octet_at(text@, start as int, v, e as int),
        forall|v: u8, e: int| #[trigger] octet_at(text@, start as int, v, e) ==> r == Some((v, e as usize)),
{
    let ghost s = text@;
    reveal(octet_at);
    if start >= len {
        return None;
    }
    let c0 = text.get_char(start);
    if !is_digit_char(c0) {
        proof {
            assert forall|v: u8, e: int|
                #![trigger s.subrange(start as int, e), octet_text(v)]
                start < e <= len && s.subrange(start as int, e) == octet_text(v) implies false by {
                assert(s.subrange(start as int, e)[0] == s[start as int]);
            }
        }
        return None;
    }
    let d0: u32 = c0 as u32 - 48;
    assert(digit_char(d0 as int) == c0);
    if start + 1 == len || !is_digit_char(text.get_char(start + 1)) {
        proof {
            assert(s.subrange(start as int, start + 1) =~= octet_text(d0 as u8));
            assert forall|v: u8, e: int|
                #![trigger s.subrange(start as int, e), octet_text(v)]
                start < e <= len && s.subrange(start as int, e) == octet_text(v) && (e == len
                    || !is_digit(s[e])) implies v == d0 && e == start + 1 by {
                let t = s.subrange(start as int, e);
                lemma_octet_text(v);
                assert(t[0] == s[start as int]);
                if v >= 10 {
                    assert(t[1] == s[start + 1]);
                }
            }
        }
        return Some((d0 as u8, start + 1));
    }
    let c1 = text.get_char(start + 1);
    let d1: u32 = c1 as u32 - 48;
    assert(digit_char(d1 as int) == c1);
    if d0 == 0 {
        proof {
            assert forall|v: u8, e: int|
                #![trigger s.subrange(start as int, e), octet_text(v)]
                start < e <= len && s.subrange(start as int, e) == octet_text(v) && (e == len
                    || !is_digit(s[e])) implies false by {
                let t = s.subrange(start as int, e);
                lemma_octet_text(v);
                assert(t[0] == s[start as int]);
                if v < 10 {
                    assert(e == start + 1);
                } else {
                    assert(t[0] == digit_char(0));
                }
            }
        }
        return None;
    }
    if start + 2 == len || !is_digit_char(text.get_char(start + 2)) {
        let v: u32 = d0 * 10 + d1;
        proof {
            assert(s.subrange(start as int, start + 2) =~= octet_text(v as u8));
            assert forall|w: u8, e: int|
                #![trigger s.subrange(start as int, e), octet_text(w)]
                start < e <= len && s.subrange(start as int, e) == octet_text(w) && (e == len
                    || !is_digit(s[e])) implies w == v && e == start + 2 by {
                let t = s.subrange(start as int, e);
                lemma_octet_text(w);
                assert(t[0] == s[start as int]);
                if w < 10 {
                                    assert(e == start + 1);
                } else {
                    assert(t[1] == s[start + 1]);
                    if w >= 100 {
                        assert(t[2] == s[start + 2]);
                    }
                }
            }
        }
        return Some((v as u8, start + 2));
    }
    let c2 = text.get_char(start + 2);
    let d2: u32 = c2 as u32 - 48;
    assert(digit_char(d2 as int) == c2);
    if start + 3 < len && is_digit_char(text.get_char(start + 3)) {
        proof {
            assert forall|w: u8, e: int|
                #![trigger s.subrange(start as int, e), octet_text(w)]
                start < e <= len && s.subrange(start as int, e) == octet_text(w) && (e == len
                    || !is_digit(s[e])) implies false by {
                let t = s.subrange(start as int, e);
                lemma_octet_text(w);
                if w < 10 {
                                    assert(e == start + 1);
                } else if w < 100 {
                                    assert(e == start + 2);
                } else {
                    assert(e == start + 3);
                }
            }
        }
        return None;
    }
    let v: u32 = d0 * 100 + d1 * 10 + d2;
    if v > 255 {
        proof {
            assert forall|w: u8, e: int|
                #![trigger s.subrange(start as int, e), octet_text(w)]
                start < e <= len && s.subrange(start as int, e) == octet_text(w) && (e == len
                    || !is_digit(s[e])) implies false by {
                let t = s.subrange(start as int, e);
                lemma_octet_text(w);
                assert(t[0] == s[start as int]);
                if w < 10 {
                                    assert(e == start + 1);
                } else if w < 100 {
                                    assert(e == start + 2);
                } else {
                    assert(t[1] == s[start + 1]);
                    assert(t[2] == s[start + 2]);
                }
            }
        }
        return None;
    }
    proof {
        assert(s.subrange(start as int, start + 3) =~= octet_text(v as u8));
        assert forall|w: u8, e: int|
                #![trigger s.subrange(start as int, e), octet_text(w)]
            start < e <= len && s.subrange(start as int, e) == octet_text(w) && (e == len
                || !is_digit(s[e])) implies w == v && e == start + 3 by {
            let t = s.subrange(start as int, e);
            lemma_octet_text(w);
            assert(t[0] == s[start as int]);
            if w < 10 {
                assert(e == start + 1);
            } else if w < 100 {
                assert(e == start + 2);
            } else {
                assert(t[1] == s[start + 1]);
                assert(t[2] == s[start + 2]);
            }
        }
    }
    Some((v as u8, start + 3))
}

pub open spec fn dot_ends(ip: Ipv4) -> (int, int, int) {
    let e0 = octet_text(ip.a).len() as int;
    let e1 = e0 + 1 + octet_text(ip.b).len();
    let e2 = e1 + 1 + octet_text(ip.c).len();
    (e0, e1, e2)
}

/// Where the octets and dots of a dotted-decimal literal stand.
proof fn lemma_dotted_parts(s: Seq<char>, ip: Ipv4)
    requires
        s == dotted(ip),
    ensures
        ({
            let (e0, e1, e2) = dot_ends(ip);
            &&& octet_at(s, 0, ip.a, e0)
            &&& s[e0] == '.'
            &&& octet_at(s, e0 + 1, ip.b, e1)
            &&& s[e1] == '.'
            &&& octet_at(s, e1 + 1, ip.c, e2)
            &&& s[e2] == '.'
            &&& octet_at(s, e2 + 1, ip.d, s.len() as int)
        }),
{
    reveal(octet_at);
    lemma_octet_text(ip.a);
    lemma_octet_text(ip.b);
    lemma_octet_text(ip.c);
    lemma_octet_text(ip.d);
    let (e0, e1, e2) = dot_ends(ip);
    assert(s.subrange(0, e0) =~= octet_text(ip.a));
    assert(s.subrange(e0 + 1, e1) =~= octet_text(ip.b));
    assert(s.subrange(e1 + 1, e2) =~= octet_text(ip.c));
    assert(s.subrange(e2 + 1, s.len() as int) =~= octet_text(ip.d));
}

/// Four octets read one after the other, with dots between them, make up the
/// whole text.
proof fn lemma_dotted_from_parts(s: Seq<char>, ip: Ipv4, e0: int, e1: int, e2: int)
    requires
        octet_at(s, 0, ip.a, e0),
        e0 < s.len() && s[e0] == '.',
        octet_at(s, e0 + 1, ip.b, e1),
        e1 < s.len() && s[e1] == '.',
        octet_at(s, e1 + 1, ip.c, e2),
        e2 < s.len() && s[e2] == '.',
        octet_at(s, e2 + 1, ip.d, s.len() as int),
    ensures
        s == dotted(ip),
{
    reveal(octet_at);
    assert(s =~= dotted(ip));
}

/// Parses a dotted-decimal IPv4 literal: four octets of one to three digits each,
/// with no leading zeros and nothing around them.
pub fn parse_ipv4(text: &str) -> (r: Option<Ipv4>)
    ensures
        forall|ip: Ipv4| #![trigger dotted(ip)] r == Some(ip) <==> text@ == dotted(ip),
{
    let ghost s = text@;
    let len = text.unicode_len();
    let a = match read_octet(text, len, 0) {
        Some(x) => x,
        None => {
            proof {
                assert forall|ip: Ipv4| s != #[trigger] dotted(ip) by {
                    if s == dotted(ip) {
                        lemma_dotted_parts(s, ip);
                    }
                }
            }
            return None;
        },
    };
    if a.1 >= len || text.get_char(a.1) != '.' {
        proof {
            assert forall|ip: Ipv4| s != #[trigger] dotted(ip) by {
                if s == dotted(ip) {
                    lemma_dotted_parts(s, ip);
                }
            }
        }
        return None;
    }
    let b = match read_octet(text, len, a.1 + 1) {
        Some(x) => x,
        None => {
            proof {
                assert forall|ip: Ipv4| s != #[trigger] dotted(ip) by {
                    if s == dotted(ip) {
                        lemma_dotted_parts(s, ip);
                    }
                }
            }
            return None;
        },
    };
    if b.1 >= len || text.get_char(b.1) != '.' {
        proof {
            assert forall|ip: Ipv4| s != #[trigger] dotted(ip) by {
                if s == dotted(ip) {
                    lemma_dotted_parts(s, ip);
                }
            }
        }
        return None;
    }
    let c = match read_octet(text, len, b.1 + 1) {
        Some(x) => x,
        None => {
            proof {
                assert forall|ip: Ipv4| s != #[trigger] dotted(ip) by {
                    if s == dotted(ip) {
                        lemma_dotted_parts(s, ip);
                    }
                }
            }
            return None;
        },
    };
    if c.1 >= len || text.get_char(c.1) != '.' {
        proof {
            assert forall|ip: Ipv4| s != #[trigger] dotted(ip) by {
                if s == dotted(ip) {
                    lemma_dotted_parts(s, ip);
                }
            }
        }
        return None;
    }
    let d = match read_octet(text, len, c.1 + 1) {
        Some(x) => x,
        None => {
            proof {
                assert forall|ip: Ipv4| s != #[trigger] dotted(ip) by {
                    if s == dotted(ip) {
                        lemma_dotted_parts(s, ip);
                    }
                }
            }
            return None;
        },
    };
    if d.1 != len {
        proof {
            assert forall|ip: Ipv4| s != #[trigger] dotted(ip) by {
                if s == dotted(ip) {
                    lemma_dotted_parts(s, ip);
                }
            }
        }
        return None;
    }
    let ip = Ipv4 { a: a.0, b: b.0, c: c.0, d: d.0 };
    proof {
        lemma_dotted_from_parts(s, ip, a.1 as int, b.1 as int, c.1 as int);
        assert forall|other: Ipv4| s == #[trigger] dotted(other) implies other == ip by {
            lemma_dotted_parts(s, other);
        }
    }
    Some(ip)
}

/// The decimal digits of a number, without leading zeros.
pub open spec fn decimal_text(n: nat) -> Seq<char>
    decreases n,
{
    if n < 10 {
        seq![digit_char(n as int)]
    } else {
        decimal_text(n / 10).push(digit_char((n % 10) as int))
    }
}

proof fn lemma_octet_is_decimal(n: u8)
    ensures
        octet_text(n) == decimal_text(n as nat),
{
    reveal_with_fuel(decimal_text, 3);
    assert(octet_text(n) =~= decimal_text(n as nat));
}

/// Relies on u64's `Display` (through `to_string`): the value in decimal, without
/// leading zeros.
#[verifier::external_body]
pub(crate) fn decimal_string(n: u64) -> (r: String)
    ensures
        r@ == decimal_text(n as nat),
{
    n.to_string()
}

impl Ipv4 {
    pub fn new(a: u8, b: u8, c: u8, d: u8) -> (r: Ipv4)
        ensures
            r == (Ipv4 { a, b, c, d }),
    {
        Ipv4 { a, b, c, d }
    }

    /// The four octets, most significant first.
    pub fn octets(&self) -> (r: [u8; 4])
        ensures
            r@ == seq![self.a, self.b, self.c, self.d],
    {
        [self.a, self.b, self.c, self.d]
    }

    /// The dotted-decimal literal of the address.
    pub fn to_text(&self) -> (r: String)
        ensures
            r@ == dotted(*self),
    {
        proof {
            lemma_octet_is_decimal(self.a);
            lemma_octet_is_decimal(self.b);
            lemma_octet_is_decimal(self.c);
            lemma_octet_is_decimal(self.d);
        }
        let mut r = decimal_string(self.a as u64);
        r.append(".");
        r.append(decimal_string(self.b as u64).as_str());
        r.append(".");
        r.append(decimal_string(self.c as u64).as_str());
        r.append(".");
        r.append(decimal_string(self.d as u64).as_str());
        proof {
            reveal_strlit(".");
            assert(r@ =~= dotted(*self));
        }
        r
    }
}

/// The IPv4 entries of a resolution result, in the order given.
pub fn ipv4_only(addrs: &Vec<HostAddr>) -> (r: Vec<Ipv4>)
    ensures
        r@ == v4_entries(addrs@),
{
    let mut r: Vec<Ipv4> = Vec::new();
    let mut i: usize = addrs.len();
    let ghost all = addrs@;
    while i > 0
        invariant
            i <= all.len(),
            all == addrs@,
            r@ == v4_entries(all.subrange(i as int, all.len() as int)),
        decreases i,
    {
        i = i - 1;
        let ghost tail = all.subrange(i as int, all.len() as int);
        assert(tail.drop_first() =~= all.subrange(i + 1, all.len() as int));
        match addrs[i] {
            HostAddr::V4(ip) => {
                r.insert(0, ip);
                assert(r@ =~= seq![ip] + v4_entries(tail.drop_first()));
            },
            HostAddr::V6(_) => {},
        }
    }
    assert(all.subrange(0, all.len() as int) =~= all);
    r
}

/// The first IPv4 entry of a resolution result, if it has one.
pub fn first_ipv4(addrs: &Vec<HostAddr>) -> (r: Option<Ipv4>)
    ensures
        v4_entries(addrs@).len() == 0 ==> r is None,
        v4_entries(addrs@).len() > 0 ==> r == Some(v4_entries(addrs@)[0]),
{
    let mut i: usize = 0;
    assert(addrs@.subrange(0, addrs@.len() as int) =~= addrs@);
    while i < addrs.len()
        invariant
            i <= addrs@.len(),
            v4_entries(addrs@) == v4_entries(addrs@.subrange(i as int, addrs@.len() as int)),
        decreases addrs@.len() - i,
    {
        let ghost tail = addrs@.subrange(i as int, addrs@.len() as int);
        assert(tail.drop_first() =~= addrs@.subrange(i + 1, addrs@.len() as int));
        match addrs[i] {
            HostAddr::V4(ip) => {
                return Some(ip);
            },
            HostAddr::V6(_) => {},
        }
        i = i + 1;
    }
    None
}

} // verus!
