//! Network addresses as plain values.
use vstd::prelude::*;

verus! {

/// A socket address: an IPv4 or IPv6 address and a port. An IPv4
/// address occupies the low 32 bits of `ip`.
#[derive(PartialEq, Eq, Structural, Clone, Copy, Debug)]
pub struct Endereco {
    pub ipv6: bool,
    pub ip: u128,
    pub porta: u16,
}

impl Endereco {
    /// The IPv4 address `a.b.c.d` with `porta`.
    pub fn ipv4(a: u8, b: u8, c: u8, d: u8, porta: u16) -> (r: Endereco)
        ensures
            r == (Endereco {
                ipv6: false,
                ip: (a as u128 * 0x1000000 + b as u128 * 0x10000 + c as u128 * 0x100 + d as u128) as u128,
                porta,
            }),
    {
        Endereco {
            ipv6: false,
            ip: a as u128 * 0x1000000 + b as u128 * 0x10000 + c as u128 * 0x100 + d as u128,
            porta,
        }
    }
}

} // verus!
