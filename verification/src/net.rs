//! IPv4 addresses and networks as plain values.
//!
//! An address is a `u32` in network order; a network is its base address
//! together with a prefix length.  Addresses inside a network are the
//! consecutive values `base`, `base + 1`, ... up to the network's capacity.

use vstd::prelude::*;
use vstd::arithmetic::power2::*;
use vstd::arithmetic::div_mod::*;
use vstd::arithmetic::mul::*;

verus! {

/// An IPv4 network: base (network) address and prefix length.
///
/// A well-formed network has `prefix <= 32` and a base address whose host
/// bits are all zero; `IpNet::new` normalizes any address to that shape.
#[derive(Clone, Copy, PartialEq, Eq, Structural, Debug)]
pub struct IpNet {
    pub base: u32,
    pub prefix: u8,
}

impl IpNet {
    /// Well-formedness: the prefix fits and the base is a proper network
    /// address (divisible by the network size).
    pub open spec fn wf(self) -> bool {
        &&& self.prefix <= 32
        &&& self.base as int % pow2((32 - self.prefix) as nat) as int == 0
    }

    /// Number of addresses in the network.
    pub open spec fn capacity(self) -> int {
        pow2((32 - self.prefix) as nat) as int
    }

    /// Whether the address value `a` lies inside the network.
    pub open spec fn contains_value(self, a: int) -> bool {
        self.base <= a < self.base + self.capacity()
    }

    /// Build a network from any address inside it and a prefix length,
    /// clearing the host bits.  `None` when the prefix is over 32.
    pub fn new(addr: u32, prefix: u8) -> (r: Option<IpNet>)
        ensures
            match r {
                Some(net) => {
                    &&& prefix <= 32
                    &&& net.wf()
                    &&& net.prefix == prefix
                    &&& net.base == addr - addr as int % pow2((32 - prefix) as nat) as int
                },
                None => prefix > 32,
            },
    {
        if prefix > 32 {
            return None;
        }
        let cap: u64 = pow2_u64(32 - prefix);
        proof {
            lemma_pow2_pos((32 - prefix) as nat);
            lemma_mod_bound(addr as int, cap as int);
            lemma_mod_decreases(addr as nat, cap as nat);
        }
        let rem: u64 = (addr as u64) % cap;
        let base: u32 = ((addr as u64) - rem) as u32;
        proof {
            assert((base as int) % (cap as int) == 0) by {
                assert(base as int == addr - addr as int % cap as int);
                lemma_fundamental_div_mod(addr as int, cap as int);
                assert(addr - addr as int % cap as int == cap as int * (addr as int / cap as int));
                lemma_mod_multiples_basic(addr as int / cap as int, cap as int);
                lemma_mul_is_commutative(cap as int, addr as int / cap as int);
            }
        }
        Some(IpNet { base, prefix })
    }

    /// The network's capacity as a machine integer.
    pub fn capacity_u64(self) -> (r: u64)
        requires
            self.prefix <= 32,
        ensures
            r as int == self.capacity(),
    {
        pow2_u64(32 - self.prefix)
    }

    /// The address at offset `i` inside the network.
    pub fn nth(self, i: u64) -> (r: u32)
        requires
            self.wf(),
            i < self.capacity(),
        ensures
            r == self.base + i,
            self.contains_value(r as int),
    {
        proof {
            lemma_base_plus_capacity(self);
        }
        ((self.base as u64) + i) as u32
    }
}

/// `pow2(e)` as a machine integer, for exponents up to 32.
pub fn pow2_u64(e: u8) -> (r: u64)
    requires
        e <= 32,
    ensures
        r as int == pow2(e as nat) as int,
{
    let mut c: u64 = 1;
    let mut k: u8 = 0;
    proof {
        lemma2_to64();
    }
    while k < e
        invariant
            k <= e <= 32,
            c as nat == pow2(k as nat),
        decreases e - k,
    {
        proof {
            lemma_pow2_unfold((k + 1) as nat);
            lemma_pow2_strictly_increases(k as nat, 33);
            lemma_pow2_strictly_increases((k + 1) as nat, 33);
            lemma2_to64();
            lemma2_to64_rest();
        }
        c = c * 2;
        k = k + 1;
    }
    c
}

/// The end of a well-formed network never passes the end of the address
/// space.
pub proof fn lemma_base_plus_capacity(net: IpNet)
    requires
        net.wf(),
    ensures
        net.base + net.capacity() <= 0x1_0000_0000,
{
    let p = net.prefix as nat;
    let hb = (32 - net.prefix) as nat;
    let cap = pow2(hb) as int;
    let w = pow2(p) as int;
    lemma_pow2_pos(hb);
    lemma_pow2_pos(p);
    lemma_pow2_adds(hb, p);
    lemma2_to64();
    assert(cap * w == 0x1_0000_0000);
    lemma_fundamental_div_mod(net.base as int, cap);
    let q = net.base as int / cap;
    assert(net.base as int == cap * q);
    assert(q * cap < w * cap) by {
        lemma_mul_is_commutative(cap, q);
        lemma_mul_is_commutative(cap, w);
    }
    lemma_mul_strict_inequality_converse(q, w, cap);
    assert(q + 1 <= w);
    lemma_mul_inequality(q + 1, w, cap);
    assert(net.base + cap == (q + 1) * cap) by {
        lemma_mul_is_distributive_add(cap, q, 1);
        lemma_mul_is_commutative(cap, q + 1);
    }
    assert((q + 1) * cap <= w * cap);
    assert(w * cap == 0x1_0000_0000) by {
        lemma_mul_is_commutative(cap, w);
    }
}

/// The single-address network holding exactly `ip`, as the lease manager
/// advertises it in a peer's allowed addresses.
pub fn ip_address_as_ip_network(ip: u32) -> (r: IpNet)
    ensures
        r.base == ip,
        r.prefix == 32,
        r.wf(),
        r.capacity() == 1,
{
    proof {
        lemma2_to64();
    }
    IpNet { base: ip, prefix: 32 }
}

/// The character for a single decimal digit.
pub open spec fn digit_char(d: int) -> char {
    if d == 0 {
        '0'
    } else if d == 1 {
        '1'
    } else if d == 2 {
        '2'
    } else if d == 3 {
        '3'
    } else if d == 4 {
        '4'
    } else if d == 5 {
        '5'
    } else if d == 6 {
        '6'
    } else if d == 7 {
        '7'
    } else if d == 8 {
        '8'
    } else {
        '9'
    }
}

/// Decimal representation of a number, most significant digit first.
pub open spec fn dec_digits(n: nat) -> Seq<char>
    decreases n,
{
    if n < 10 {
        seq![digit_char(n as int)]
    } else {
        dec_digits(n / 10).push(digit_char((n % 10) as int))
    }
}

/// One decimal digit as text.
fn digit_str(d: u8) -> (r: &'static str)
    requires
        d < 10,
    ensures
        r@ =~= seq![digit_char(d as int)],
{
    proof {
        reveal_strlit("0");
        reveal_strlit("1");
        reveal_strlit("2");
        reveal_strlit("3");
        reveal_strlit("4");
        reveal_strlit("5");
        reveal_strlit("6");
        reveal_strlit("7");
        reveal_strlit("8");
        reveal_strlit("9");
    }
    if d == 0 {
        "0"
    } else if d == 1 {
        "1"
    } else if d == 2 {
        "2"
    } else if d == 3 {
        "3"
    } else if d == 4 {
        "4"
    } else if d == 5 {
        "5"
    } else if d == 6 {
        "6"
    } else if d == 7 {
        "7"
    } else if d == 8 {
        "8"
    } else {
        "9"
    }
}

/// A number rendered in decimal.
pub fn u64_to_dec(n: u64) -> (r: String)
    ensures
        r@ == dec_digits(n as nat),
    decreases n,
{
    if n < 10 {
        digit_str(n as u8).to_owned()
    } else {
        let mut s = u64_to_dec(n / 10);
        s.append(digit_str((n % 10) as u8));
        proof {
            assert(s@ =~= dec_digits(n as nat));
        }
        s
    }
}

/// Dotted-quad text of an IPv4 address value.
pub open spec fn ipv4_text(a: int) -> Seq<char> {
    dec_digits((a / 0x1000000) as nat) + seq!['.'] + dec_digits(((a / 0x10000) % 256) as nat)
        + seq!['.'] + dec_digits(((a / 256) % 256) as nat) + seq!['.'] + dec_digits((a % 256) as nat)
}

/// Text of a network in CIDR notation.
pub open spec fn ipnet_text(net: IpNet) -> Seq<char> {
    ipv4_text(net.base as int) + seq!['/'] + dec_digits(net.prefix as nat)
}

/// Dotted-quad rendering of an address.
pub fn ipv4_to_string(a: u32) -> (r: String)
    ensures
        r@ == ipv4_text(a as int),
{
    proof {
        reveal_strlit(".");
    }
    let mut s = u64_to_dec((a as u64) / 0x1000000);
    s.append(".");
    let o1 = u64_to_dec(((a as u64) / 0x10000) % 256);
    s.append(o1.as_str());
    s.append(".");
    let o2 = u64_to_dec(((a as u64) / 256) % 256);
    s.append(o2.as_str());
    s.append(".");
    let o3 = u64_to_dec((a as u64) % 256);
    s.append(o3.as_str());
    proof {
        assert(s@ =~= ipv4_text(a as int));
    }
    s
}

/// CIDR rendering of a network.
pub fn ipnet_to_string(net: IpNet) -> (r: String)
    ensures
        r@ == ipnet_text(net),
{
    proof {
        reveal_strlit("/");
    }
    let mut s = ipv4_to_string(net.base);
    s.append("/");
    let p = u64_to_dec(net.prefix as u64);
    s.append(p.as_str());
    proof {
        assert(s@ =~= ipnet_text(net));
    }
    s
}

} // verus!
