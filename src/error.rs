use vstd::prelude::*;

verus! {

#[verifier::external_type_specification]
#[verifier::external_body]
pub struct ExIoError(std::io::Error);

#[verifier::external_type_specification]
#[verifier::external_body]
pub struct ExHeaderSliceError(etherparse::err::ipv4::HeaderSliceError);

/// What the operations of a `Cabernet` report when they do not succeed.
#[derive(Debug)]
pub enum CabernetError {
    /// A read from or write to a device failed.
    IOError(std::io::Error),
    /// No UE (and, where it applies, no gateway) holds the address given.
    IPNotAssigned(String),
    /// A frame does not start with a well-formed IPv4 header.
    Ipv4HeaderParse(etherparse::err::ipv4::HeaderSliceError),
    /// A text is not the canonical dotted-quad form of an IPv4 address.
    InvalidAddress(String),
    /// The address is held already by another UE or by the gateway.
    IPAlreadyAssigned(String),
}

pub type Result<T> = std::result::Result<T, CabernetError>;

} // verus!
