//! The server's settings.

use vstd::prelude::*;
use crate::text::{copy_str, push_str, push_decimal, dec_digits};

verus! {

/// The settings of a server: where objects are stored, where it listens,
/// the credentials and region of its requests, and after how many hours
/// incomplete multipart uploads are removed.
#[derive(Clone, Debug)]
pub struct Config {
    pub data_dir: String,
    pub port: u16,
    pub host: String,
    pub access_key: String,
    pub secret_key: String,
    pub region: String,
    pub multipart_expiry_hours: u64,
}

impl Config {
    /// The address to listen on: host, a colon, and port.
    pub fn listen_address(&self) -> (r: String)
        ensures
            r@ == self.host@ + ":"@ + dec_digits(self.port as nat),
    {
        let mut r = copy_str(self.host.as_str());
        push_str(&mut r, ":");
        push_decimal(&mut r, self.port as u64);
        r
    }
}

} // verus!
