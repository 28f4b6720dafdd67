use vstd::prelude::*;

verus! {

/// `mio::Token`, the key a source is registered under; opaque to proofs.
#[verifier::external_type_specification]
#[verifier::external_body]
pub struct ExToken(mio::Token);

/// A readiness event for a registered source, detached from the poller:
/// the source's token and whether it became readable or writable.
pub struct Event {
    token: mio::Token,
    is_readable: bool,
    is_writable: bool,
}

impl Event {
    pub closed spec fn spec_token(&self) -> mio::Token {
        self.token
    }

    pub closed spec fn readable(&self) -> bool {
        self.is_readable
    }

    pub closed spec fn writable(&self) -> bool {
        self.is_writable
    }

    /// An event for the source registered under `token`.
    pub fn new(token: mio::Token, is_readable: bool, is_writable: bool) -> (e: Self)
        ensures
            e.spec_token() == token,
            e.readable() == is_readable,
            e.writable() == is_writable,
    {
        Event { token, is_readable, is_writable }
    }

    pub fn token(&self) -> (t: mio::Token)
        ensures
            t == self.spec_token(),
    {
        self.token
    }

    pub fn is_readable(&self) -> (b: bool)
        ensures
            b == self.readable(),
    {
        self.is_readable
    }

    pub fn is_writable(&self) -> (b: bool)
        ensures
            b == self.writable(),
    {
        self.is_writable
    }
}

} // verus!
