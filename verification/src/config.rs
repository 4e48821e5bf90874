//! Server configuration.

use vstd::prelude::*;

verus! {

/// Configuration for the server: the address it binds to.
#[derive(Debug)]
pub struct Config {
    addr: String,
}

impl View for Config {
    type V = Seq<char>;

    /// The configured address, as a sequence of characters.
    closed spec fn view(&self) -> Seq<char> {
        self.addr@
    }
}

impl Config {
    /// Create a configuration holding the address the server should bind to.
    pub fn new(addr: &str) -> (config: Config)
        ensures
            config@ == addr@,
    {
        Config { addr: addr.to_owned() }
    }

    /// The address the server binds to.
    pub fn addr(&self) -> (addr: &str)
        ensures
            addr@ == self@,
    {
        self.addr.as_str()
    }
}

} // verus!
