//! `systemd:` transport: a socket passed in by systemd.
use vstd::prelude::*;

verus! {

/// `systemd:` transport. It has no options; any given are ignored.
#[derive(Clone, Debug, PartialEq, Eq)]
pub struct Systemd {}

impl View for Systemd {
    type V = ();

    open spec fn view(&self) -> () {
        ()
    }
}

impl Systemd {
    /// The transport; options do not change it.
    pub fn new() -> (r: Systemd) {
        Systemd {}
    }

    /// This transport, holding its own data.
    pub fn into_owned(self) -> (r: Systemd) {
        self
    }
}

} // verus!
