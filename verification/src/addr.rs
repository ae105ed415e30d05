use vstd::prelude::*;

verus! {

/// An IPv4 socket address held as plain values: the ip as a big-endian
/// 32-bit integer and the port.
///
/// The relay never interprets an address; it only compares addresses for
/// equality (to classify a datagram's source) and hands them back as send
/// targets, so two integers are all the model needs. Callers that deal in
/// other address families convert at the boundary.
#[derive(Clone, Copy, PartialEq, Eq, Structural, Debug, Hash)]
pub struct Addr {
    pub ip: u32,
    pub port: u16,
}

impl Addr {
    /// Builds an address from the four dotted-quad octets and a port.
    pub fn new(a: u8, b: u8, c: u8, d: u8, port: u16) -> (r: Addr)
        ensures
            r.ip == a * 0x1000000 + b * 0x10000 + c * 0x100 + d,
            r.port == port,
    {
        let ip: u32 = (a as u32) * 0x1000000 + (b as u32) * 0x10000 + (c as u32) * 0x100 + (d as u32);
        Addr { ip, port }
    }
}

} // verus!
