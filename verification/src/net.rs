//! Capability traits for network-facing middleware.
//!
//! The transport itself is an external collaborator: middleware that moves
//! bytes over a socket lives with the caller. These traits only fix the
//! points at which such middleware reads and writes the buffers a context
//! exposes.

use vstd::prelude::*;

verus! {

/// Lets receiving middleware store what arrived from the transport: the
/// context hands out its received-bytes buffer and takes the filled buffer
/// back.
pub trait Receivable {
    /// The received bytes this context holds. Left unspecified unless the
    /// implementor says what it is.
    open spec fn request_view(&self) -> Seq<u8> {
        arbitrary()
    }

    /// Take the buffer for received bytes out of the context.
    fn request(&mut self) -> (r: Vec<u8>)
        ensures
            r@ == old(self).request_view(),
    ;

    /// Put the filled buffer for received bytes back into the context.
    fn set_request(&mut self, bytes: Vec<u8>)
        ensures
            final(self).request_view() == bytes@,
    ;
}

/// Lets sending middleware read what should go out over the transport: the
/// context hands out its sendable-bytes buffer and takes it back once sent.
pub trait Sendable {
    /// The bytes this context asks to have sent. Left unspecified unless
    /// the implementor says what it is.
    open spec fn response_view(&self) -> Seq<u8> {
        arbitrary()
    }

    /// Take the buffer of bytes to send out of the context.
    fn response(&mut self) -> (r: Vec<u8>)
        ensures
            r@ == old(self).response_view(),
    ;

    /// Put the buffer of bytes to send back into the context.
    fn set_response(&mut self, bytes: Vec<u8>)
        ensures
            final(self).response_view() == bytes@,
    ;
}

} // verus!
