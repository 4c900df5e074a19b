//! The address of the server under test: how it is written, which URL a
//! path has on it, and a slot that holds it from the moment the server has
//! bound it.

use crate::text::{decimal, decimal_text};
use vstd::prelude::*;

verus! {

/// An IPv4 host and a port.
#[derive(Debug, Clone, Copy, PartialEq, Eq, Structural)]
pub struct ServerAddr {
    pub a: u8,
    pub b: u8,
    pub c: u8,
    pub d: u8,
    pub port: u16,
}

/// The path without the slash it may begin with.
pub open spec fn without_leading_slash(path: Seq<char>) -> Seq<char> {
    if path.len() > 0 && path[0] == '/' {
        path.subrange(1, path.len() as int)
    } else {
        path
    }
}

/// Drops the slash that a path may begin with.
pub fn strip_leading_slash(path: &str) -> (rest: &str)
    ensures
        rest@ == without_leading_slash(path@),
{
    let len = path.unicode_len();
    if len > 0 && path.get_char(0) == '/' {
        path.substring_char(1, len)
    } else {
        path
    }
}

impl ServerAddr {
    /// The address written as host and port: four decimal numbers with
    /// dots between them, a colon, the port.
    pub open spec fn authority_of(self) -> Seq<char> {
        decimal(self.a as nat) + "."@ + decimal(self.b as nat) + "."@ + decimal(self.c as nat)
            + "."@ + decimal(self.d as nat) + ":"@ + decimal(self.port as nat)
    }

    /// The URL of `path` on the server at this address.
    pub open spec fn url_of(self, path: Seq<char>) -> Seq<char> {
        "http://"@ + self.authority_of() + "/"@ + without_leading_slash(path)
    }

    /// The address of the given port on the loopback host.
    pub fn loopback(port: u16) -> (addr: ServerAddr)
        ensures
            addr == (ServerAddr { a: 127, b: 0, c: 0, d: 1, port }),
    {
        ServerAddr { a: 127, b: 0, c: 0, d: 1, port }
    }

    /// Writes the address as host and port.
    pub fn authority(&self) -> (text: String)
        ensures
            text@ == self.authority_of(),
    {
        let mut text = decimal_text(self.a as u128);
        text.append(".");
        text.append(decimal_text(self.b as u128).as_str());
        text.append(".");
        text.append(decimal_text(self.c as u128).as_str());
        text.append(".");
        text.append(decimal_text(self.d as u128).as_str());
        text.append(":");
        text.append(decimal_text(self.port as u128).as_str());
        text
    }

    /// The URL to navigate to for `path`, which may or may not begin with a
    /// slash.
    pub fn url_for(&self, path: &str) -> (url: String)
        ensures
            url@ == self.url_of(path@),
    {
        let mut url = "http://".to_owned();
        url.append(self.authority().as_str());
        url.append("/");
        url.append(strip_leading_slash(path));
        url
    }
}

/// Holds the address of the server once it is known. It is written once and
/// read as often as needed.
#[derive(Debug)]
pub struct ServerAddrSlot {
    addr: Option<ServerAddr>,
}

impl ServerAddrSlot {
    /// The address that the slot holds, once written.
    pub closed spec fn value(&self) -> Option<ServerAddr> {
        self.addr
    }

    /// An empty slot.
    pub fn new() -> (slot: Self)
        ensures
            slot.value() is None,
    {
        ServerAddrSlot { addr: None }
    }

    /// Whether the address has been written.
    pub fn is_set(&self) -> (set: bool)
        ensures
            set == self.value() is Some,
    {
        self.addr.is_some()
    }

    /// Writes the address. A slot is written once: a second write is an
    /// error of the caller.
    pub fn set_server_addr(&mut self, addr: ServerAddr)
        requires
            old(self).value() is None,
        ensures
            final(self).value() == Some(addr),
    {
        self.addr = Some(addr);
    }

    /// Reads the address. Reading before the write is an error of the
    /// caller: there is no default to fall back on.
    pub fn get_server_addr(&self) -> (addr: ServerAddr)
        requires
            self.value() is Some,
        ensures
            self.value() == Some(addr),
    {
        self.addr.unwrap()
    }
}

} // verus!
