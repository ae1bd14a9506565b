use vstd::prelude::*;

use crate::addr::{octets_addr, Ipv4, ipv4_from_octets};
use crate::error::CabernetError;

verus! {

/// The start of `b` is a well-formed IPv4 header: at least twenty bytes, version 4, a header
/// length of at least five words, and the whole header inside `b`.
pub open spec fn ipv4_header_ok(b: Seq<u8>) -> bool {
    &&& b.len() >= 20
    &&& b[0] / 16 == 4
    &&& b[0] % 16 >= 5
    &&& b.len() >= (b[0] % 16) * 4
}

/// The destination address that an IPv4 header holds in its bytes 16 to 19.
pub open spec fn destination_of(b: Seq<u8>) -> Ipv4 {
    octets_addr(b.subrange(16, 20))
}

/// Relies on etherparse's `Ipv4HeaderSlice::from_slice`, which accepts a slice exactly when it
/// starts with a header as `ipv4_header_ok` describes.
#[verifier::external_body]
fn check_ipv4_header(frame: &[u8]) -> (r: std::result::Result<(), etherparse::err::ipv4::HeaderSliceError>)
    ensures
        r is Ok <==> ipv4_header_ok(frame@),
{
    etherparse::Ipv4HeaderSlice::from_slice(frame).map(|_| ())
}

/// Checks the IPv4 header at the start of `frame` and reads its destination address.
pub fn frame_destination(frame: &[u8]) -> (r: std::result::Result<Ipv4, CabernetError>)
    ensures
        r is Ok <==> ipv4_header_ok(frame@),
        r matches Ok(x) ==> x == destination_of(frame@),
        r matches Err(e) ==> e is Ipv4HeaderParse,
{
    match check_ipv4_header(frame) {
        Ok(()) => {
            let o: [u8; 4] = [frame[16], frame[17], frame[18], frame[19]];
            let x = ipv4_from_octets(o);
            proof {
                assert(o@ =~= frame@.subrange(16, 20));
            }
            Ok(x)
        },
        Err(e) => Err(CabernetError::Ipv4HeaderParse(e)),
    }
}

/// What a non-blocking read from a device gave.
pub enum RecvEvent {
    /// The bytes of one frame.
    Data(Vec<u8>),
    /// No frame was ready.
    WouldBlock,
    /// The read failed otherwise.
    Failed(std::io::Error),
}

/// Decides what one read from a device yields: the frame read when it starts with a well-formed
/// IPv4 header, nothing when it does not or when no frame was ready, and the error of a failed
/// read.
pub fn frame_from_read(ev: RecvEvent) -> (r: std::result::Result<Option<Vec<u8>>, CabernetError>)
    ensures
        match ev {
            RecvEvent::Data(b) => r == Ok::<Option<Vec<u8>>, CabernetError>(
                if ipv4_header_ok(b@) { Some(b) } else { None },
            ),
            RecvEvent::WouldBlock => r == Ok::<Option<Vec<u8>>, CabernetError>(None),
            RecvEvent::Failed(e) => r == Err::<Option<Vec<u8>>, CabernetError>(
                CabernetError::IOError(e),
            ),
        },
{
    match ev {
        RecvEvent::Data(b) => match check_ipv4_header(b.as_slice()) {
            Ok(()) => Ok(Some(b)),
            Err(_) => Ok(None),
        },
        RecvEvent::WouldBlock => Ok(None),
        RecvEvent::Failed(e) => Err(CabernetError::IOError(e)),
    }
}

} // verus!
