//! A client before it connects: where to, and how to try again.

use vstd::prelude::*;
use vstd::string::*;
use crate::connection::{check_url, is_websocket_scheme, url_scheme, DdpConnError};

verus! {

/// How long to wait between attempts to connect.
pub enum Retry<F> {
    Linear,
    Exponential,
    Quadratic,
    /// A curve of the caller's own.
    Custom(F),
}

/// Why an address was refused.
#[derive(Debug, PartialEq, Eq)]
pub enum Error {
    /// The address is not that of a WebSocket.
    UrlIsNotWebsocket,
    /// The address is not a URL.
    ParseError,
}

/// A client that knows its server's address.
pub struct Client<F> {
    pub url: String,
    pub retry: Option<Retry<F>>,
}

impl<F> Client<F> {
    /// A client for the server at `url`, which must be the address of a
    /// WebSocket. It does not try again until it is told how.
    pub fn new(url: &str) -> (r: Result<Client<F>, Error>)
        ensures
            match url_scheme(url@) {
                None => r == Err::<Client<F>, Error>(Error::ParseError),
                Some(scheme) => if is_websocket_scheme(scheme) {
                    r is Ok && r->Ok_0.url@ == url@ && r->Ok_0.retry is None
                } else {
                    r == Err::<Client<F>, Error>(Error::UrlIsNotWebsocket)
                },
            },
    {
        match check_url(url) {
            Ok(()) => Ok(Client { url: String::from_str(url), retry: None }),
            Err(DdpConnError::Parse(_)) => Err(Error::ParseError),
            Err(_) => Err(Error::UrlIsNotWebsocket),
        }
    }

    /// Tries again along `curve`.
    pub fn retry(&mut self, curve: Retry<F>)
        ensures
            final(self).retry == Some(curve),
            final(self).url == old(self).url,
    {
        self.retry = Some(curve);
    }

    /// Tries again along a curve of the caller's own.
    pub fn retry_custom(&mut self, f: F)
        ensures
            final(self).retry == Some(Retry::Custom(f)),
            final(self).url == old(self).url,
    {
        self.retry = Some(Retry::Custom(f));
    }

    /// Does not try again.
    pub fn no_retry(&mut self)
        ensures
            final(self).retry is None,
            final(self).url == old(self).url,
    {
        self.retry = None;
    }
}

} // verus!
