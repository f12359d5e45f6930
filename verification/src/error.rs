//! Error taxonomy of the client.
//!
//! Every failure propagates to the caller as one of these kinds; nothing is
//! retried or swallowed inside the library.

use vstd::prelude::*;

verus! {

/// The four failure kinds of the client.
///
/// - `UrlConstruction`: the base host did not parse as a URL; a
///   configuration-class failure.
/// - `Transport`: the network exchange itself failed; never retried here.
/// - `Shodan`: the service answered, but reported a logical error; the
///   carried string is the service's message.
/// - `Decode`: the response body matched neither the error shape nor the
///   expected payload shape; the carried string is the parse diagnostic.
#[derive(Debug)]
pub enum Error {
    UrlConstruction(String),
    Transport(String),
    Shodan(String),
    Decode(String),
}

impl Error {
    /// The message carried by this error, whatever its kind.
    pub fn message(&self) -> (r: &String)
        ensures
            r@ == self.spec_message(),
    {
        match self {
            Error::UrlConstruction(m) => m,
            Error::Transport(m) => m,
            Error::Shodan(m) => m,
            Error::Decode(m) => m,
        }
    }

    pub open spec fn spec_message(&self) -> Seq<char> {
        match self {
            Error::UrlConstruction(m) => m@,
            Error::Transport(m) => m@,
            Error::Shodan(m) => m@,
            Error::Decode(m) => m@,
        }
    }
}

} // verus!
