//! The transports an address can name, each with its own options.
use vstd::prelude::*;
use vstd::utf8::*;

use crate::fmt::KeyValFmt;
use crate::keyval::{chars_are, chars_eq, RawOption};
use autolaunch::{autolaunch_options, autolaunch_spec, Autolaunch, ScopeModel};
use launchd::{launchd_options, launchd_spec, Launchd};
use nonce_tcp::{nonce_tcp_options, nonce_tcp_spec, NonceTcp, NonceTcpModel};
use other::{kept_options, other_options, OtherModel, OtherTransport};
use systemd::Systemd;
use tcp::{tcp_options, tcp_spec, Tcp, TcpModel};
use unix::{unix_options, unix_spec, Unix, UnixKindModel};
use unixexec::{unixexec_options, unixexec_spec, Unixexec, UnixexecModel};
use vsock::{vsock_options, vsock_spec, Vsock, VsockModel};
use crate::number::{parse_unsigned, parse_unsigned_exec};
use crate::options::{find_key, opt_views, value_of, DecodedOption, Opt};
use crate::text::{chars_of, push_str, string_from_utf8, string_of};
use crate::{EncodingError, Error, ErrorModel};

pub mod autolaunch;
pub mod launchd;
pub mod nonce_tcp;
pub mod other;
pub mod tcp;
pub mod systemd;
pub mod unix;
pub mod unixexec;
pub mod vsock;

verus! {

/// Bytes read as characters, one each.
pub open spec fn bytes_chars(b: Seq<u8>) -> Seq<char> {
    b.map_values(|x: u8| x as char)
}

/// Decoded bytes read as UTF-8 text.
pub open spec fn text_of(b: Seq<u8>) -> Result<Seq<char>, ErrorModel> {
    if valid_utf8(b) {
        Ok(decode_utf8(b))
    } else {
        Err(ErrorModel::Encoding(EncodingError::InvalidUtf8))
    }
}

/// Whether some option has key `k`.
pub open spec fn present(opts: Seq<DecodedOption>, k: Seq<char>) -> bool {
    crate::options::lookup(opts, k) is Some
}

/// The value of key `k` read as text, where it has one.
pub open spec fn opt_text(opts: Seq<DecodedOption>, k: Seq<char>) -> Result<
    Option<Seq<char>>,
    ErrorModel,
> {
    match value_of(opts, k) {
        None => Ok(None),
        Some(b) => match text_of(b) {
            Ok(t) => Ok(Some(t)),
            Err(e) => Err(e),
        },
    }
}

/// The value of key `k` read as an unsigned number no larger than `max`, where it has one.
pub open spec fn opt_number(opts: Seq<DecodedOption>, k: Seq<char>, max: nat) -> Result<
    Option<nat>,
    ErrorModel,
> {
    match value_of(opts, k) {
        None => Ok(None),
        Some(b) => match parse_unsigned(bytes_chars(b), max) {
            Some(v) => Ok(Some(v)),
            None => Err(ErrorModel::InvalidValue(k)),
        },
    }
}

pub open spec fn string_view(s: Option<String>) -> Option<Seq<char>> {
    match s {
        Some(t) => Some(t@),
        None => None,
    }
}

pub open spec fn bytes_view(s: Option<Vec<u8>>) -> Option<Seq<u8>> {
    match s {
        Some(t) => Some(t@),
        None => None,
    }
}

/// Bytes as characters, one each.
pub fn bytes_to_chars(b: &Vec<u8>) -> (r: Vec<char>)
    ensures
        r@ == bytes_chars(b@),
{
    let mut out: Vec<char> = Vec::new();
    let n = b.len();
    for i in 0..n
        invariant
            n == b.len(),
            out@ == bytes_chars(b@).subrange(0, i as int),
    {
        out.push(b[i] as char);
        assert(out@ =~= bytes_chars(b@).subrange(0, i + 1));
    }
    assert(bytes_chars(b@).subrange(0, n as int) =~= bytes_chars(b@));
    out
}

/// Whether the bytes, one character each, spell the text `t`.
pub fn bytes_are(b: &Vec<u8>, t: &str) -> (r: bool)
    ensures
        r == (bytes_chars(b@) == t@),
{
    chars_eq(&bytes_to_chars(b), &chars_of(t))
}

/// Reads decoded bytes as UTF-8 text.
pub fn to_text(b: Vec<u8>) -> (r: Result<String, Error>)
    ensures
        crate::result_view(r) == text_of(b@),
{
    match string_from_utf8(b) {
        Some(s) => Ok(s),
        None => Err(Error::Encoding(EncodingError::InvalidUtf8)),
    }
}

/// The value given to key `k`, where one is.
pub fn value_bytes(opts: &Vec<Opt>, k: &str) -> (r: Option<Vec<u8>>)
    ensures
        bytes_view(r) == value_of(opt_views(opts@), k@),
{
    match find_key(opts, k) {
        None => None,
        Some(i) => match &opts[i].value {
            None => None,
            Some(v) => Some(v.clone()),
        },
    }
}

/// The value given to key `k` read as text, where one is.
pub fn text_value(opts: &Vec<Opt>, k: &str) -> (r: Result<Option<String>, Error>)
    ensures
        match r {
            Ok(s) => opt_text(opt_views(opts@), k@) == Ok::<Option<Seq<char>>, ErrorModel>(
                string_view(s),
            ),
            Err(e) => opt_text(opt_views(opts@), k@) == Err::<Option<Seq<char>>, ErrorModel>(
                e@,
            ),
        },
{
    match value_bytes(opts, k) {
        None => Ok(None),
        Some(b) => match to_text(b) {
            Ok(s) => Ok(Some(s)),
            Err(e) => Err(e),
        },
    }
}

/// The value given to key `k` read as an unsigned number no larger than `max`.
pub fn number_value(opts: &Vec<Opt>, k: &str, max: u64) -> (r: Result<Option<u64>, Error>)
    ensures
        match r {
            Ok(Some(v)) => opt_number(opt_views(opts@), k@, max as nat) == Ok::<
                Option<nat>,
                ErrorModel,
            >(Some(v as nat)),
            Ok(None) => opt_number(opt_views(opts@), k@, max as nat) == Ok::<
                Option<nat>,
                ErrorModel,
            >(None),
            Err(e) => opt_number(opt_views(opts@), k@, max as nat) == Err::<
                Option<nat>,
                ErrorModel,
            >(e@),
        },
{
    match value_bytes(opts, k) {
        None => Ok(None),
        Some(b) => match parse_unsigned_exec(&bytes_to_chars(&b), max) {
            Some(v) => Ok(Some(v)),
            None => Err(Error::InvalidValue(k.to_owned())),
        },
    }
}

/// A message-bus transport.
#[derive(Clone, Debug, PartialEq, Eq)]
#[non_exhaustive]
pub enum Transport {
    /// Unix Domain Sockets transport.
    Unix(Unix),
    /// launchd transport.
    Launchd(Launchd),
    /// systemd transport.
    Systemd(Systemd),
    /// TCP Sockets transport.
    Tcp(Tcp),
    /// Nonce-authenticated TCP Sockets transport.
    NonceTcp(NonceTcp),
    /// Executed Subprocesses on Unix transport.
    Unixexec(Unixexec),
    /// Autolaunch transport.
    Autolaunch(Autolaunch),
    /// VSOCK Sockets transport.
    Vsock(Vsock),
    /// A transport this library does not know.
    Other(OtherTransport),
}

/// The model of a [`Transport`].
pub enum TransportModel {
    Unix(UnixKindModel),
    Launchd(Seq<char>),
    Systemd,
    Tcp(TcpModel),
    NonceTcp(NonceTcpModel),
    Unixexec(UnixexecModel),
    Autolaunch(Option<ScopeModel>),
    Vsock(VsockModel),
    Other(OtherModel),
}

impl View for Transport {
    type V = TransportModel;

    open spec fn view(&self) -> TransportModel {
        match self {
            Transport::Unix(t) => TransportModel::Unix(t@),
            Transport::Launchd(t) => TransportModel::Launchd(t@),
            Transport::Systemd(_) => TransportModel::Systemd,
            Transport::Tcp(t) => TransportModel::Tcp(t@),
            Transport::NonceTcp(t) => TransportModel::NonceTcp(t@),
            Transport::Unixexec(t) => TransportModel::Unixexec(t@),
            Transport::Autolaunch(t) => TransportModel::Autolaunch(t@),
            Transport::Vsock(t) => TransportModel::Vsock(t@),
            Transport::Other(t) => TransportModel::Other(t@),
        }
    }
}

/// The transport that a name and its decoded options give.
///
/// Names are matched exactly; one that matches none gives an unknown transport
/// that keeps its options.
pub open spec fn transport_spec(name: Seq<char>, opts: Seq<DecodedOption>) -> Result<
    TransportModel,
    ErrorModel,
> {
    if name == "unix"@ {
        match unix_spec(opts) {
            Ok(m) => Ok(TransportModel::Unix(m)),
            Err(e) => Err(e),
        }
    } else if name == "launchd"@ {
        match launchd_spec(opts) {
            Ok(m) => Ok(TransportModel::Launchd(m)),
            Err(e) => Err(e),
        }
    } else if name == "systemd"@ {
        Ok(TransportModel::Systemd)
    } else if name == "tcp"@ {
        match tcp_spec(opts) {
            Ok(m) => Ok(TransportModel::Tcp(m)),
            Err(e) => Err(e),
        }
    } else if name == "nonce-tcp"@ {
        match nonce_tcp_spec(opts) {
            Ok(m) => Ok(TransportModel::NonceTcp(m)),
            Err(e) => Err(e),
        }
    } else if name == "unixexec"@ {
        match unixexec_spec(opts) {
            Ok(m) => Ok(TransportModel::Unixexec(m)),
            Err(e) => Err(e),
        }
    } else if name == "autolaunch"@ {
        match autolaunch_spec(opts) {
            Ok(m) => Ok(TransportModel::Autolaunch(m)),
            Err(e) => Err(e),
        }
    } else if name == "vsock"@ {
        match vsock_spec(opts) {
            Ok(m) => Ok(TransportModel::Vsock(m)),
            Err(e) => Err(e),
        }
    } else {
        Ok(TransportModel::Other(OtherModel { name, options: kept_options(opts) }))
    }
}

/// The name an address gives a transport.
pub open spec fn transport_name(t: TransportModel) -> Seq<char> {
    match t {
        TransportModel::Unix(_) => "unix"@,
        TransportModel::Launchd(_) => "launchd"@,
        TransportModel::Systemd => "systemd"@,
        TransportModel::Tcp(_) => "tcp"@,
        TransportModel::NonceTcp(_) => "nonce-tcp"@,
        TransportModel::Unixexec(_) => "unixexec"@,
        TransportModel::Autolaunch(_) => "autolaunch"@,
        TransportModel::Vsock(_) => "vsock"@,
        TransportModel::Other(m) => m.name,
    }
}

/// The options that write out a transport, in its fixed order.
pub open spec fn transport_options(t: TransportModel) -> Seq<RawOption> {
    match t {
        TransportModel::Unix(m) => unix_options(m),
        TransportModel::Launchd(m) => launchd_options(m),
        TransportModel::Systemd => Seq::empty(),
        TransportModel::Tcp(m) => tcp_options(m),
        TransportModel::NonceTcp(m) => nonce_tcp_options(m),
        TransportModel::Unixexec(m) => unixexec_options(m),
        TransportModel::Autolaunch(m) => autolaunch_options(m),
        TransportModel::Vsock(m) => vsock_options(m),
        TransportModel::Other(m) => other_options(m),
    }
}

impl Transport {
    /// This transport, holding its own data.
    pub fn into_owned(self) -> (r: Transport)
        ensures
            r@ == self@,
    {
        match self {
            Transport::Unix(t) => Transport::Unix(t),
            Transport::Launchd(t) => Transport::Launchd(t.into_owned()),
            Transport::Systemd(t) => Transport::Systemd(t.into_owned()),
            Transport::Tcp(t) => Transport::Tcp(t),
            Transport::NonceTcp(t) => Transport::NonceTcp(t),
            Transport::Unixexec(t) => Transport::Unixexec(t),
            Transport::Autolaunch(t) => Transport::Autolaunch(t),
            Transport::Vsock(t) => Transport::Vsock(t.into_owned()),
            Transport::Other(t) => Transport::Other(t),
        }
    }

    /// Reads the transport that `name` names from decoded options.
    pub fn for_options(name: &Vec<char>, opts: &Vec<Opt>) -> (r: Result<Transport, Error>)
        ensures
            crate::result_view(r) == transport_spec(name@, opt_views(opts@)),
    {
        if chars_are(name, "unix") {
            Ok(Transport::Unix(Unix::for_options(opts)?))
        } else if chars_are(name, "launchd") {
            Ok(Transport::Launchd(Launchd::for_options(opts)?))
        } else if chars_are(name, "systemd") {
            Ok(Transport::Systemd(Systemd::new()))
        } else if chars_are(name, "tcp") {
            Ok(Transport::Tcp(Tcp::for_options(opts)?))
        } else if chars_are(name, "nonce-tcp") {
            Ok(Transport::NonceTcp(NonceTcp::for_options(opts)?))
        } else if chars_are(name, "unixexec") {
            Ok(Transport::Unixexec(Unixexec::for_options(opts)?))
        } else if chars_are(name, "autolaunch") {
            Ok(Transport::Autolaunch(Autolaunch::for_options(opts)?))
        } else if chars_are(name, "vsock") {
            Ok(Transport::Vsock(Vsock::for_options(opts)?))
        } else {
            Ok(Transport::Other(OtherTransport::for_options(string_of(name), opts)))
        }
    }

    /// Appends the transport's name.
    pub fn fmt_name(&self, out: &mut String)
        ensures
            final(out)@ == old(out)@ + transport_name(self@),
    {
        match self {
            Transport::Unix(_) => push_str(out, "unix"),
            Transport::Launchd(_) => push_str(out, "launchd"),
            Transport::Systemd(_) => push_str(out, "systemd"),
            Transport::Tcp(_) => push_str(out, "tcp"),
            Transport::NonceTcp(_) => push_str(out, "nonce-tcp"),
            Transport::Unixexec(_) => push_str(out, "unixexec"),
            Transport::Autolaunch(_) => push_str(out, "autolaunch"),
            Transport::Vsock(_) => push_str(out, "vsock"),
            Transport::Other(t) => push_str(out, t.name()),
        }
    }

    /// Writes the transport's options.
    pub fn fmt_key_val(&self, kv: &mut KeyValFmt)
        requires
            old(kv).wf(),
        ensures
            final(kv).wf(),
            final(kv).fields() == old(kv).fields() + transport_options(self@),
    {
        match self {
            Transport::Unix(t) => t.fmt_key_val(kv),
            Transport::Launchd(t) => t.fmt_key_val(kv),
            Transport::Systemd(_) => {
                assert(kv.fields() =~= kv.fields() + Seq::<RawOption>::empty());
            },
            Transport::Tcp(t) => t.fmt_key_val(kv),
            Transport::NonceTcp(t) => t.fmt_key_val(kv),
            Transport::Unixexec(t) => t.fmt_key_val(kv),
            Transport::Autolaunch(t) => t.fmt_key_val(kv),
            Transport::Vsock(t) => t.fmt_key_val(kv),
            Transport::Other(t) => t.fmt_key_val(kv),
        }
    }
}

} // verus!
