//! Durable byte encoding of IP addresses: 4 bytes for v4, 16 bytes for v6,
//! least significant byte first in both directions.

use vstd::prelude::*;

verus! {

/// An IP address, held as its integer value.
#[derive(PartialEq, Eq, Structural, Clone, Copy, Debug)]
pub enum Ip {
    V4(u32),
    V6(u128),
}

/// `256` raised to `k`.
pub open spec fn pow256(k: nat) -> nat
    decreases k,
{
    if k == 0 {
        1
    } else {
        256 * pow256((k - 1) as nat)
    }
}

/// The `len` least significant base-256 digits of `n`, lowest first.
pub open spec fn le_bytes(n: nat, len: nat) -> Seq<u8>
    decreases len,
{
    if len == 0 {
        Seq::empty()
    } else {
        seq![(n % 256) as u8] + le_bytes(n / 256, (len - 1) as nat)
    }
}

/// The number whose base-256 digits, lowest first, are `b`.
pub open spec fn le_value(b: Seq<u8>) -> nat
    decreases b.len(),
{
    if b.len() == 0 {
        0
    } else {
        b[0] as nat + 256 * le_value(b.drop_first())
    }
}

/// The durable encoding of an address.
pub open spec fn ip_bytes(ip: Ip) -> Seq<u8> {
    match ip {
        Ip::V4(v) => le_bytes(v as nat, 4),
        Ip::V6(v) => le_bytes(v as nat, 16),
    }
}

/// The address that a durable byte string encodes, if its length is 4 or 16.
pub open spec fn ip_of_bytes(b: Seq<u8>) -> Option<Ip> {
    if b.len() == 4 {
        Some(Ip::V4(le_value(b) as u32))
    } else if b.len() == 16 {
        Some(Ip::V6(le_value(b) as u128))
    } else {
        None
    }
}

proof fn lemma_pow256_mono(j: nat, k: nat)
    requires
        j <= k,
    ensures
        pow256(j) <= pow256(k),
    decreases k,
{
    if j < k {
        lemma_pow256_mono(j, (k - 1) as nat);
    }
}

proof fn lemma_pow256_values()
    ensures
        pow256(4) == 0x1_0000_0000,
        pow256(15) == 0x1_00_0000_0000_0000_0000_0000_0000_0000,
        pow256(16) == 0x1_0000_0000_0000_0000_0000_0000_0000_0000,
{
    reveal_with_fuel(pow256, 17);
}

proof fn lemma_le_value_bound(b: Seq<u8>)
    ensures
        le_value(b) < pow256(b.len()),
    decreases b.len(),
{
    if b.len() > 0 {
        let r = b.drop_first();
        lemma_le_value_bound(r);
        let v = le_value(r);
        let p = pow256(r.len());
        let d = b[0] as nat;
        assert(d + 256 * v < 256 * p) by (nonlinear_arith)
            requires
                d < 256,
                v < p,
        ;
    }
}

/// Decoding the encoding of a number that fits in `len` digits gives it back.
pub proof fn lemma_value_of_bytes(n: nat, len: nat)
    requires
        n < pow256(len),
    ensures
        le_bytes(n, len).len() == len,
        le_value(le_bytes(n, len)) == n,
    decreases len,
{
    if len > 0 {
        let q = n / 256;
        let p = pow256((len - 1) as nat);
        assert(q < p) by (nonlinear_arith)
            requires
                n < 256 * p,
                q == n / 256,
        ;
        lemma_value_of_bytes(q, (len - 1) as nat);
        let s = le_bytes(n, len);
        assert(s.drop_first() =~= le_bytes(q, (len - 1) as nat));
        assert(n == n % 256 + 256 * q);
    }
}

/// Encoding the value of a byte string, with as many digits, gives it back.
pub proof fn lemma_bytes_of_value(b: Seq<u8>)
    ensures
        le_bytes(le_value(b), b.len()) == b,
    decreases b.len(),
{
    if b.len() > 0 {
        let r = b.drop_first();
        lemma_bytes_of_value(r);
        let v = le_value(r);
        let d = b[0] as nat;
        assert((d + 256 * v) % 256 == d && (d + 256 * v) / 256 == v) by (nonlinear_arith)
            requires
                d < 256,
        ;
        assert(le_bytes(le_value(b), b.len()) =~= b);
    }
}

/// Every address decodes back from its encoding.
pub proof fn lemma_ip_round_trip(ip: Ip)
    ensures
        ip_of_bytes(ip_bytes(ip)) == Some(ip),
{
    lemma_pow256_values();
    match ip {
        Ip::V4(v) => lemma_value_of_bytes(v as nat, 4),
        Ip::V6(v) => lemma_value_of_bytes(v as nat, 16),
    }
}

/// Every byte string of length 4 or 16 is the encoding of the address it decodes to.
pub proof fn lemma_bytes_round_trip(b: Seq<u8>)
    requires
        b.len() == 4 || b.len() == 16,
    ensures
        ip_of_bytes(b) is Some,
        ip_bytes(ip_of_bytes(b).unwrap()) == b,
{
    lemma_pow256_values();
    lemma_le_value_bound(b);
    lemma_bytes_of_value(b);
}

/// Encoding is injective: two addresses with the same bytes are equal.
pub proof fn lemma_ip_bytes_injective(a: Ip, b: Ip)
    requires
        ip_bytes(a) == ip_bytes(b),
    ensures
        a == b,
{
    lemma_ip_round_trip(a);
    lemma_ip_round_trip(b);
}

fn le_encode(x: u128, len: usize) -> (r: Vec<u8>)
    ensures
        r@ == le_bytes(x as nat, len as nat),
{
    let mut out: Vec<u8> = Vec::new();
    let mut rest: u128 = x;
    let mut i: usize = 0;
    while i < len
        invariant
            i <= len,
            out@ + le_bytes(rest as nat, (len - i) as nat) == le_bytes(x as nat, len as nat),
        decreases len - i,
    {
        let ghost k = (len - i - 1) as nat;
        assert(le_bytes(rest as nat, (k + 1) as nat) == seq![(rest as nat % 256) as u8] + le_bytes(
            rest as nat / 256,
            k,
        ));
        assert(out@.push((rest % 256) as u8) + le_bytes((rest / 256) as nat, k) =~= out@ + le_bytes(
            rest as nat,
            (k + 1) as nat,
        ));
        out.push((rest % 256) as u8);
        rest = rest / 256;
        i = i + 1;
    }
    assert(out@ + le_bytes(rest as nat, 0) =~= out@);
    out
}

fn le_decode(b: &Vec<u8>) -> (r: u128)
    requires
        b@.len() <= 16,
    ensures
        r as nat == le_value(b@),
{
    let n = b.len();
    let mut acc: u128 = 0;
    let mut i: usize = n;
    proof {
        lemma_pow256_values();
        assert(b@.subrange(n as int, n as int) =~= Seq::<u8>::empty());
    }
    while i > 0
        invariant
            i <= n == b@.len() <= 16,
            acc as nat == le_value(b@.subrange(i as int, n as int)),
            pow256(16) == 0x1_0000_0000_0000_0000_0000_0000_0000_0000,
        decreases i,
    {
        let ghost tail = b@.subrange(i as int, n as int);
        proof {
            lemma_le_value_bound(tail);
            lemma_pow256_mono(tail.len(), 15);
            lemma_pow256_values();
            assert(b@.subrange(i - 1, n as int).drop_first() =~= tail);
        }
        acc = acc * 256 + b[i - 1] as u128;
        i = i - 1;
    }
    assert(b@.subrange(0, n as int) =~= b@);
    acc
}

/// The durable encoding of `ip`.
pub fn ip_to_vec8(ip: &Ip) -> (r: Vec<u8>)
    ensures
        r@ == ip_bytes(*ip),
{
    match ip {
        Ip::V4(v) => le_encode(*v as u128, 4),
        Ip::V6(v) => le_encode(*v, 16),
    }
}

/// The address encoded by `v`; fails unless `v` holds 4 or 16 bytes.
pub fn ip_form_vec8(v: &Vec<u8>) -> (r: Result<Ip, ()>)
    ensures
        r matches Ok(ip) ==> ip_of_bytes(v@) == Some(ip),
        r is Err <==> ip_of_bytes(v@) is None,
{
    if v.len() == 4 {
        proof {
            lemma_le_value_bound(v@);
            lemma_pow256_values();
        }
        let x = le_decode(v);
        Ok(Ip::V4(x as u32))
    } else if v.len() == 16 {
        let x = le_decode(v);
        Ok(Ip::V6(x))
    } else {
        Err(())
    }
}

} // verus!
