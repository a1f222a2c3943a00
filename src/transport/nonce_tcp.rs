//! `nonce-tcp:` transport: a TCP socket authenticated by a nonce file.
use vstd::prelude::*;

use super::bytes_view;
use super::tcp::{opt_field, tcp_options, tcp_spec, Tcp, TcpFamily, TcpModel};
use crate::fmt::KeyValFmt;
use crate::keyval::RawOption;
use crate::options::{opt_views, value_of, DecodedOption, Opt};
use crate::{Error, ErrorModel};

verus! {

/// The model of a [`NonceTcp`] transport: its TCP part and its nonce file.
pub struct NonceTcpModel {
    pub tcp: TcpModel,
    pub noncefile: Option<Seq<u8>>,
}

/// A `nonce-tcp:` address: the options of `tcp:` and an optional `noncefile`.
pub open spec fn nonce_tcp_spec(opts: Seq<DecodedOption>) -> Result<NonceTcpModel, ErrorModel> {
    match tcp_spec(opts) {
        Err(e) => Err(e),
        Ok(tcp) => Ok(NonceTcpModel { tcp, noncefile: value_of(opts, "noncefile"@) }),
    }
}

/// The options that write out a `nonce-tcp:` transport.
pub open spec fn nonce_tcp_options(m: NonceTcpModel) -> Seq<RawOption> {
    tcp_options(m.tcp) + opt_field("noncefile"@, m.noncefile)
}

/// `nonce-tcp:` transport.
#[derive(Clone, Debug, PartialEq, Eq)]
pub struct NonceTcp {
    tcp: Tcp,
    noncefile: Option<Vec<u8>>,
}

impl View for NonceTcp {
    type V = NonceTcpModel;

    closed spec fn view(&self) -> NonceTcpModel {
        NonceTcpModel { tcp: self.tcp@, noncefile: bytes_view(self.noncefile) }
    }
}

impl NonceTcp {
    /// The host name or address to connect to.
    pub fn host(&self) -> (r: Option<&str>)
        ensures
            match r {
                Some(s) => self@.tcp.host == Some(s@),
                None => self@.tcp.host is None,
            },
    {
        self.tcp.host()
    }

    /// The address to bind to.
    pub fn bind(&self) -> (r: Option<&str>)
        ensures
            match r {
                Some(s) => self@.tcp.bind == Some(s@),
                None => self@.tcp.bind is None,
            },
    {
        self.tcp.bind()
    }

    /// The TCP port.
    pub fn port(&self) -> (r: Option<u16>)
        ensures
            r == self@.tcp.port,
    {
        self.tcp.port()
    }

    /// The address family.
    pub fn family(&self) -> (r: Option<TcpFamily>)
        ensures
            r == self@.tcp.family,
    {
        self.tcp.family()
    }

    /// The file that holds the nonce.
    pub fn noncefile(&self) -> (r: Option<&[u8]>)
        ensures
            match r {
                Some(s) => self@.noncefile == Some(s@),
                None => self@.noncefile is None,
            },
    {
        match &self.noncefile {
            Some(v) => Some(v.as_slice()),
            None => None,
        }
    }

    /// Reads the transport from decoded options.
    pub fn for_options(opts: &Vec<Opt>) -> (r: Result<NonceTcp, Error>)
        ensures
            crate::result_view(r) == nonce_tcp_spec(opt_views(opts@)),
    {
        let tcp = Tcp::for_options(opts)?;
        let noncefile = super::value_bytes(opts, "noncefile");
        Ok(NonceTcp { tcp, noncefile })
    }

    /// Writes the transport's options.
    pub fn fmt_key_val(&self, kv: &mut KeyValFmt)
        requires
            old(kv).wf(),
        ensures
            final(kv).wf(),
            final(kv).fields() == old(kv).fields() + nonce_tcp_options(self@),
    {
        let ghost f = kv.fields();
        self.tcp.fmt_key_val(kv);
        match &self.noncefile {
            Some(v) => kv.add("noncefile", Some(v.as_slice())),
            None => {},
        }
        assert(kv.fields() =~= f + nonce_tcp_options(self@));
    }
}

} // verus!
