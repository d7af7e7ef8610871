//! IPv4 source addresses: the dotted-decimal grammar, rendering, and the key
//! under which the state store files an address.
use vstd::prelude::*;
use crate::text::{
    all_digits, decimal, digits_value, is_digit, parse_port, push_decimal, push_str,
};

verus! {

/// An IPv4 address, as its four octets from left to right.
#[derive(Clone, Copy, Debug, PartialEq, Eq, Structural, Hash)]
pub struct IpAddress(pub u8, pub u8, pub u8, pub u8);

/// One field of a dotted-decimal address: one to three digits, no leading zero
/// unless the field is `0` itself, at most 255.
pub open spec fn octet_of(t: Seq<char>) -> Option<u8> {
    if 1 <= t.len() <= 3 && all_digits(t) && !(t.len() > 1 && t[0] == '0') && digits_value(t)
        <= 255 {
        Some(digits_value(t) as u8)
    } else {
        None
    }
}

/// First position at or after `p` that holds a dot, or the length of `s`.
pub open spec fn next_dot(s: Seq<char>, p: int) -> int
    decreases s.len() - p,
{
    if p < 0 || p >= s.len() {
        s.len() as int
    } else if s[p] == '.' {
        p
    } else {
        next_dot(s, p + 1)
    }
}

/// The address that `t` writes in dotted-decimal form: exactly four fields
/// separated by three dots, each a valid octet.
pub open spec fn ipv4_of(t: Seq<char>) -> Option<IpAddress> {
    let p1 = next_dot(t, 0);
    let p2 = next_dot(t, p1 + 1);
    let p3 = next_dot(t, p2 + 1);
    if p3 < t.len() && next_dot(t, p3 + 1) == t.len() {
        match (
            octet_of(t.subrange(0, p1)),
            octet_of(t.subrange(p1 + 1, p2)),
            octet_of(t.subrange(p2 + 1, p3)),
            octet_of(t.subrange(p3 + 1, t.len() as int)),
        ) {
            (Some(a), Some(b), Some(c), Some(d)) => Some(IpAddress(a, b, c, d)),
            _ => None,
        }
    } else {
        None
    }
}

/// The text of an address: its four octets in decimal, joined by dots.
pub open spec fn dotted(ip: IpAddress) -> Seq<char> {
    decimal(ip.0 as nat) + seq!['.'] + decimal(ip.1 as nat) + seq!['.'] + decimal(ip.2 as nat)
        + seq!['.'] + decimal(ip.3 as nat)
}

/// The address as one 32-bit number, first octet highest.
pub open spec fn ip_key(ip: IpAddress) -> u32 {
    (ip.0 as int * 16777216 + ip.1 as int * 65536 + ip.2 as int * 256 + ip.3 as int) as u32
}

pub open spec fn pow10(n: nat) -> nat
    decreases n,
{
    if n == 0 {
        1
    } else {
        10 * pow10((n - 1) as nat)
    }
}

pub proof fn lemma_digits_value_below_pow10(t: Seq<char>)
    requires
        all_digits(t),
    ensures
        digits_value(t) < pow10(t.len()),
    decreases t.len(),
{
    if t.len() > 0 {
        let u = t.drop_last();
        assert(all_digits(u)) by {
            assert forall|i: int| 0 <= i < u.len() implies is_digit(#[trigger] u[i]) by {
                assert(u[i] == t[i]);
            }
        }
        lemma_digits_value_below_pow10(u);
        assert(is_digit(t[t.len() - 1]));
        let d = (t.last() as int - '0' as int);
        assert(0 <= d <= 9);
        let a = digits_value(u) as int;
        let b = pow10(u.len()) as int;
        assert(a * 10 + d < 10 * b) by (nonlinear_arith)
            requires
                a < b,
                0 <= d <= 9,
        ;
    }
}

/// Returns the first position at or after `from` that holds a dot, or the length of `t`.
fn find_dot(t: &Vec<char>, from: usize) -> (r: usize)
    requires
        from <= t@.len(),
    ensures
        r == next_dot(t@, from as int),
        from <= r <= t@.len(),
{
    let n = t.len();
    let mut p = from;
    while p < n && t[p] != '.'
        invariant
            n == t@.len(),
            from <= p <= n,
            next_dot(t@, p as int) == next_dot(t@, from as int),
        decreases n - p,
    {
        p = p + 1;
    }
    p
}

/// Reads `t[start..end]` as one field of a dotted-decimal address.
fn parse_octet(t: &Vec<char>, start: usize, end: usize) -> (r: Option<u8>)
    requires
        start <= end <= t@.len(),
    ensures
        r == octet_of(t@.subrange(start as int, end as int)),
{
    let ghost f = t@.subrange(start as int, end as int);
    if end - start == 0 || end - start > 3 {
        return None;
    }
    if end - start > 1 && t[start] == '0' {
        assert(f[0] == '0');
        return None;
    }
    match parse_port(t, start, end) {
        None => {
            proof {
                if all_digits(f) {
                    lemma_digits_value_below_pow10(f);
                    assert(pow10(f.len()) <= 1000) by {
                        reveal_with_fuel(pow10, 4);
                    }
                }
            }
            None
        },
        Some(v) => {
            if v <= 255 {
                Some(v as u8)
            } else {
                None
            }
        },
    }
}

/// Copies `s[start..end]` into a vector of its own.
pub fn copy_range(s: &Vec<char>, start: usize, end: usize) -> (r: Vec<char>)
    requires
        start <= end <= s@.len(),
    ensures
        r@ == s@.subrange(start as int, end as int),
{
    let mut out: Vec<char> = Vec::new();
    let mut i = start;
    while i < end
        invariant
            start <= i <= end <= s@.len(),
            out@ == s@.subrange(start as int, i as int),
        decreases end - i,
    {
        out.push(s[i]);
        i = i + 1;
        assert(out@ =~= s@.subrange(start as int, i as int));
    }
    out
}

/// Reads `s[start..end]` as a dotted-decimal IPv4 address.
pub fn parse_ipv4(s: &Vec<char>, start: usize, end: usize) -> (r: Option<IpAddress>)
    requires
        start <= end <= s@.len(),
    ensures
        r == ipv4_of(s@.subrange(start as int, end as int)),
{
    let t = copy_range(s, start, end);
    let n = t.len();
    let p1 = find_dot(&t, 0);
    if p1 >= n {
        return None;
    }
    let p2 = find_dot(&t, p1 + 1);
    if p2 >= n {
        return None;
    }
    let p3 = find_dot(&t, p2 + 1);
    if p3 >= n {
        return None;
    }
    let p4 = find_dot(&t, p3 + 1);
    if p4 != n {
        return None;
    }
    let a = parse_octet(&t, 0, p1);
    let b = parse_octet(&t, p1 + 1, p2);
    let c = parse_octet(&t, p2 + 1, p3);
    let d = parse_octet(&t, p3 + 1, n);
    match (a, b, c, d) {
        (Some(a), Some(b), Some(c), Some(d)) => Some(IpAddress(a, b, c, d)),
        _ => None,
    }
}

impl IpAddress {
    /// Reads a whole string as a dotted-decimal IPv4 address.
    pub fn parse(text: &str) -> (r: Option<IpAddress>)
        ensures
            r == ipv4_of(text@),
    {
        let s = crate::text::chars_of(text);
        let r = parse_ipv4(&s, 0, s.len());
        assert(s@.subrange(0, s@.len() as int) =~= text@);
        r
    }

    /// The number under which the state store files this address.
    pub fn key(&self) -> (r: u32)
        ensures
            r == ip_key(*self),
    {
        (self.0 as u32) * 16777216 + (self.1 as u32) * 65536 + (self.2 as u32) * 256
            + self.3 as u32
    }

    /// The address in dotted-decimal form.
    pub fn to_dotted(&self) -> (r: String)
        ensures
            r@ == dotted(*self),
    {
        let mut out = String::new();
        push_decimal(&mut out, self.0 as u128);
        push_str(&mut out, ".");
        push_decimal(&mut out, self.1 as u128);
        push_str(&mut out, ".");
        push_decimal(&mut out, self.2 as u128);
        push_str(&mut out, ".");
        push_decimal(&mut out, self.3 as u128);
        proof {
            reveal_strlit(".");
        }
        assert(out@ =~= dotted(*self));
        out
    }
}

} // verus!
