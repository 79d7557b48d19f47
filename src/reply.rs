//! HTTP replies of the service: a status code and an always empty body.
use vstd::prelude::*;

verus! {

pub const STATUS_OK: u16 = 200;

pub const STATUS_BAD_REQUEST: u16 = 400;

pub const STATUS_INTERNAL_SERVER_ERROR: u16 = 500;

pub struct Reply {
    pub status: u16,
    pub body: Vec<u8>,
}

impl Reply {
    /// A reply with the given status and no body.
    pub fn empty(status: u16) -> (r: Reply)
        ensures
            r.status == status,
            r.body@ == Seq::<u8>::empty(),
    {
        Reply { status, body: Vec::new() }
    }

    pub fn content_length(&self) -> (r: usize)
        ensures
            r == self.body@.len(),
    {
        self.body.len()
    }
}

/// The liveness probe: always 200 with an empty body, touching no state.
pub fn health_check() -> (r: Reply)
    ensures
        r.status == STATUS_OK,
        r.body@ == Seq::<u8>::empty(),
{
    Reply::empty(STATUS_OK)
}

} // verus!
