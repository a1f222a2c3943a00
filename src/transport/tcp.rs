//! `tcp:` transport: a TCP socket.
use vstd::prelude::*;
use vstd::utf8::*;

use super::{bytes_are, bytes_chars, opt_number, opt_text, string_view, text_value, number_value, text_of, value_bytes};
use crate::fmt::KeyValFmt;
use crate::keyval::RawOption;
use crate::number::{dec_digits, decimal_bytes};
use crate::options::{opt_views, value_of, DecodedOption, Opt};
use crate::percent::encode_spec;
use crate::{Error, ErrorModel};

verus! {

/// A TCP address family.
#[derive(Clone, Copy, Debug, PartialEq, Eq, Structural)]
pub enum TcpFamily {
    IPv4,
    IPv6,
}

/// The family a `family` value names.
pub open spec fn family_spec(b: Seq<u8>) -> Result<TcpFamily, ErrorModel> {
    if bytes_chars(b) == "ipv4"@ {
        Ok(TcpFamily::IPv4)
    } else if bytes_chars(b) == "ipv6"@ {
        Ok(TcpFamily::IPv6)
    } else {
        match text_of(b) {
            Ok(t) => Err(ErrorModel::UnknownTcpFamily(t)),
            Err(e) => Err(e),
        }
    }
}

/// The `family` option, where it has a value.
pub open spec fn opt_family(opts: Seq<DecodedOption>) -> Result<Option<TcpFamily>, ErrorModel> {
    match value_of(opts, "family"@) {
        None => Ok(None),
        Some(b) => match family_spec(b) {
            Ok(f) => Ok(Some(f)),
            Err(e) => Err(e),
        },
    }
}

/// The name of a family as an address writes it.
pub open spec fn family_text(f: TcpFamily) -> Seq<char> {
    match f {
        TcpFamily::IPv4 => "ipv4"@,
        TcpFamily::IPv6 => "ipv6"@,
    }
}

impl TcpFamily {
    /// Reads the value of a `family` option.
    pub fn from_bytes(b: Vec<u8>) -> (r: Result<TcpFamily, Error>)
        ensures
            match r {
                Ok(f) => family_spec(b@) == Ok::<TcpFamily, ErrorModel>(f),
                Err(e) => family_spec(b@) == Err::<TcpFamily, ErrorModel>(e@),
            },
    {
        if bytes_are(&b, "ipv4") {
            Ok(TcpFamily::IPv4)
        } else if bytes_are(&b, "ipv6") {
            Ok(TcpFamily::IPv6)
        } else {
            match super::to_text(b) {
                Ok(t) => Err(Error::UnknownTcpFamily(t)),
                Err(e) => Err(e),
            }
        }
    }

    /// The name of the family as an address writes it.
    pub fn as_str(&self) -> (r: &'static str)
        ensures
            r@ == family_text(*self),
    {
        match self {
            TcpFamily::IPv4 => "ipv4",
            TcpFamily::IPv6 => "ipv6",
        }
    }
}

/// The model of a [`Tcp`] transport.
pub struct TcpModel {
    pub host: Option<Seq<char>>,
    pub bind: Option<Seq<char>>,
    pub port: Option<u16>,
    pub family: Option<TcpFamily>,
}

/// A `tcp:` address: `host` and `bind` as text, `port` a 16-bit number, `family`
/// `ipv4` or `ipv6`; each optional, and checked in that order.
pub open spec fn tcp_spec(opts: Seq<DecodedOption>) -> Result<TcpModel, ErrorModel> {
    match opt_text(opts, "host"@) {
        Err(e) => Err(e),
        Ok(host) => match opt_text(opts, "bind"@) {
            Err(e) => Err(e),
            Ok(bind) => match opt_number(opts, "port"@, u16::MAX as nat) {
                Err(e) => Err(e),
                Ok(port) => match opt_family(opts) {
                    Err(e) => Err(e),
                    Ok(family) => Ok(
                        TcpModel {
                            host,
                            bind,
                            port: match port {
                                Some(p) => Some(p as u16),
                                None => None,
                            },
                            family,
                        },
                    ),
                },
            },
        },
    }
}

/// An optional option, written where it has a value.
pub open spec fn opt_field(k: Seq<char>, v: Option<Seq<u8>>) -> Seq<RawOption> {
    match v {
        Some(b) => seq![(k, Some(encode_spec(b)))],
        None => Seq::empty(),
    }
}

/// The bytes of optional text.
pub open spec fn text_bytes(t: Option<Seq<char>>) -> Option<Seq<u8>> {
    match t {
        Some(s) => Some(encode_utf8(s)),
        None => None,
    }
}

/// The bytes of the decimal digits of an optional number.
pub open spec fn number_bytes(n: Option<nat>) -> Option<Seq<u8>> {
    match n {
        Some(v) => Some(dec_digits(v).map_values(|c: char| c as u8)),
        None => None,
    }
}

/// The options that write out a `tcp:` transport.
pub open spec fn tcp_options(m: TcpModel) -> Seq<RawOption> {
    opt_field("host"@, text_bytes(m.host)) + opt_field("bind"@, text_bytes(m.bind)) + opt_field(
        "port"@,
        number_bytes(
            match m.port {
                Some(p) => Some(p as nat),
                None => None,
            },
        ),
    ) + opt_field(
        "family"@,
        match m.family {
            Some(f) => Some(encode_utf8(family_text(f))),
            None => None,
        },
    )
}

/// `tcp:` transport.
#[derive(Clone, Debug, PartialEq, Eq)]
pub struct Tcp {
    host: Option<String>,
    bind: Option<String>,
    port: Option<u16>,
    family: Option<TcpFamily>,
}

impl View for Tcp {
    type V = TcpModel;

    closed spec fn view(&self) -> TcpModel {
        TcpModel {
            host: string_view(self.host),
            bind: string_view(self.bind),
            port: self.port,
            family: self.family,
        }
    }
}

/// Adds an optional text option.
pub fn add_text(kv: &mut KeyValFmt, k: &str, t: &Option<String>)
    requires
        old(kv).wf(),
    ensures
        final(kv).wf(),
        final(kv).fields() == old(kv).fields() + opt_field(k@, text_bytes(string_view(*t))),
{
    let ghost f = kv.fields();
    match t {
        Some(s) => kv.add(k, Some(s.as_str().as_bytes())),
        None => {},
    }
    assert(kv.fields() =~= f + opt_field(k@, text_bytes(string_view(*t))));
}

/// Adds an optional number option.
pub fn add_number(kv: &mut KeyValFmt, k: &str, n: Option<u64>)
    requires
        old(kv).wf(),
    ensures
        final(kv).wf(),
        final(kv).fields() == old(kv).fields() + opt_field(
            k@,
            number_bytes(
                match n {
                    Some(v) => Some(v as nat),
                    None => None,
                },
            ),
        ),
{
    let ghost f = kv.fields();
    match n {
        Some(v) => {
            let d = decimal_bytes(v);
            assert(d@ =~= dec_digits(v as nat).map_values(|c: char| c as u8)) by {
                assert forall|i: int| 0 <= i < d@.len() implies d@[i] == dec_digits(
                    v as nat,
                ).map_values(|c: char| c as u8)[i] by {
                    assert(d@.map_values(|x: u8| x as char)[i] == d@[i] as char);
                    assert((d@[i] as char) as u8 == d@[i]);
                }
            }
            kv.add(k, Some(d.as_slice()));
        },
        None => {},
    }
    assert(kv.fields() =~= f + opt_field(
        k@,
        number_bytes(
            match n {
                Some(v) => Some(v as nat),
                None => None,
            },
        ),
    ));
}

/// Reads the `family` option.
pub fn family_value(opts: &Vec<Opt>) -> (r: Result<Option<TcpFamily>, Error>)
    ensures
        match r {
            Ok(f) => opt_family(opt_views(opts@)) == Ok::<Option<TcpFamily>, ErrorModel>(f),
            Err(e) => opt_family(opt_views(opts@)) == Err::<Option<TcpFamily>, ErrorModel>(e@),
        },
{
    match value_bytes(opts, "family") {
        None => Ok(None),
        Some(b) => match TcpFamily::from_bytes(b) {
            Ok(f) => Ok(Some(f)),
            Err(e) => Err(e),
        },
    }
}

impl Tcp {
    /// The host name or address to connect to.
    pub fn host(&self) -> (r: Option<&str>)
        ensures
            match r {
                Some(s) => self@.host == Some(s@),
                None => self@.host is None,
            },
    {
        match &self.host {
            Some(h) => Some(h.as_str()),
            None => None,
        }
    }

    /// The address to bind to.
    pub fn bind(&self) -> (r: Option<&str>)
        ensures
            match r {
                Some(s) => self@.bind == Some(s@),
                None => self@.bind is None,
            },
    {
        match &self.bind {
            Some(h) => Some(h.as_str()),
            None => None,
        }
    }

    /// The TCP port.
    pub fn port(&self) -> (r: Option<u16>)
        ensures
            r == self@.port,
    {
        self.port
    }

    /// The address family.
    pub fn family(&self) -> (r: Option<TcpFamily>)
        ensures
            r == self@.family,
    {
        self.family
    }

    /// Reads the transport from decoded options.
    pub fn for_options(opts: &Vec<Opt>) -> (r: Result<Tcp, Error>)
        ensures
            crate::result_view(r) == tcp_spec(opt_views(opts@)),
    {
        let host = text_value(opts, "host")?;
        let bind = text_value(opts, "bind")?;
        let port = match number_value(opts, "port", u16::MAX as u64)? {
            Some(p) => Some(p as u16),
            None => None,
        };
        let family = family_value(opts)?;
        Ok(Tcp { host, bind, port, family })
    }

    /// Writes the transport's options.
    pub fn fmt_key_val(&self, kv: &mut KeyValFmt)
        requires
            old(kv).wf(),
        ensures
            final(kv).wf(),
            final(kv).fields() == old(kv).fields() + tcp_options(self@),
    {
        let ghost f = kv.fields();
        add_text(kv, "host", &self.host);
        add_text(kv, "bind", &self.bind);
        add_number(
            kv,
            "port",
            match self.port {
                Some(p) => Some(p as u64),
                None => None,
            },
        );
        match self.family {
            Some(fam) => kv.add("family", Some(fam.as_str().as_bytes())),
            None => {},
        }
        assert(kv.fields() =~= f + tcp_options(self@));
    }
}

} // verus!
