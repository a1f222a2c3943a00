//! `vsock:` transport: a VSOCK socket.
use vstd::prelude::*;

use super::number_value;
use super::opt_number;
use super::tcp::{add_number, number_bytes, opt_field};
use crate::fmt::KeyValFmt;
use crate::keyval::RawOption;
use crate::options::{opt_views, DecodedOption, Opt};
use crate::{Error, ErrorModel};

verus! {

/// The model of a [`Vsock`] transport; no value means any.
pub struct VsockModel {
    pub cid: Option<u32>,
    pub port: Option<u32>,
}

pub open spec fn as_u32(n: Option<nat>) -> Option<u32> {
    match n {
        Some(v) => Some(v as u32),
        None => None,
    }
}

pub open spec fn as_nat(n: Option<u32>) -> Option<nat> {
    match n {
        Some(v) => Some(v as nat),
        None => None,
    }
}

/// A `vsock:` address: `cid` and `port`, each an optional 32-bit number.
pub open spec fn vsock_spec(opts: Seq<DecodedOption>) -> Result<VsockModel, ErrorModel> {
    match opt_number(opts, "cid"@, u32::MAX as nat) {
        Err(e) => Err(e),
        Ok(cid) => match opt_number(opts, "port"@, u32::MAX as nat) {
            Err(e) => Err(e),
            Ok(port) => Ok(VsockModel { cid: as_u32(cid), port: as_u32(port) }),
        },
    }
}

/// The options that write out a `vsock:` transport.
pub open spec fn vsock_options(m: VsockModel) -> Seq<RawOption> {
    opt_field("cid"@, number_bytes(as_nat(m.cid))) + opt_field("port"@, number_bytes(as_nat(m.port)))
}

/// `vsock:` transport.
#[derive(Clone, Debug, PartialEq, Eq)]
pub struct Vsock {
    cid: Option<u32>,
    port: Option<u32>,
}

impl View for Vsock {
    type V = VsockModel;

    closed spec fn view(&self) -> VsockModel {
        VsockModel { cid: self.cid, port: self.port }
    }
}

fn widen(n: Option<u32>) -> (r: Option<u64>)
    ensures
        match r {
            Some(v) => as_nat(n) == Some(v as nat),
            None => n is None,
        },
{
    match n {
        Some(v) => Some(v as u64),
        None => None,
    }
}

impl Vsock {
    /// The VSOCK port.
    pub fn port(&self) -> (r: Option<u32>)
        ensures
            r == self@.port,
    {
        self.port
    }

    /// The VSOCK CID.
    pub fn cid(&self) -> (r: Option<u32>)
        ensures
            r == self@.cid,
    {
        self.cid
    }

    /// This transport, holding its own data.
    pub fn into_owned(self) -> (r: Vsock)
        ensures
            r@ == self@,
    {
        self
    }

    /// Reads the transport from decoded options.
    pub fn for_options(opts: &Vec<Opt>) -> (r: Result<Vsock, Error>)
        ensures
            crate::result_view(r) == vsock_spec(opt_views(opts@)),
    {
        let cid = match number_value(opts, "cid", u32::MAX as u64)? {
            Some(v) => Some(v as u32),
            None => None,
        };
        let port = match number_value(opts, "port", u32::MAX as u64)? {
            Some(v) => Some(v as u32),
            None => None,
        };
        Ok(Vsock { cid, port })
    }

    /// Writes the transport's options.
    pub fn fmt_key_val(&self, kv: &mut KeyValFmt)
        requires
            old(kv).wf(),
        ensures
            final(kv).wf(),
            final(kv).fields() == old(kv).fields() + vsock_options(self@),
    {
        let ghost f = kv.fields();
        add_number(kv, "cid", widen(self.cid));
        add_number(kv, "port", widen(self.port));
        assert(kv.fields() =~= f + vsock_options(self@));
    }
}

} // verus!
