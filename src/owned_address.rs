//! Addresses held as their parsed parts.
use vstd::prelude::*;

use crate::address::{format_spec, guid_options, parse_exec, parse_spec, AddressModel};
use crate::fmt::KeyValFmt;
use crate::guid::Guid;
use crate::text::{chars_of, push_char, push_str};
use crate::transport::{transport_options, Transport};
use crate::{Error, ErrorModel};

verus! {

/// An address held as its transport and GUID.
#[derive(Debug, PartialEq, Eq, Clone)]
pub struct OwnedDBusAddr {
    transport: Transport,
    guid: Option<Guid>,
}

impl View for OwnedDBusAddr {
    type V = AddressModel;

    closed spec fn view(&self) -> AddressModel {
        AddressModel {
            transport: self.transport@,
            guid: match self.guid {
                Some(g) => Some(g@),
                None => None,
            },
        }
    }
}

impl OwnedDBusAddr {
    /// The connection GUID if any.
    pub fn guid(&self) -> (r: Option<&Guid>)
        ensures
            match r {
                Some(g) => self@.guid == Some(g@),
                None => self@.guid is None,
            },
    {
        match &self.guid {
            Some(g) => Some(g),
            None => None,
        }
    }

    /// Transport connection details.
    pub fn transport(&self) -> (r: &Transport)
        ensures
            r@ == self@.transport,
    {
        &self.transport
    }

    /// Parses and validates an address.
    pub fn new(addr: &str) -> (r: Result<OwnedDBusAddr, Error>)
        ensures
            match r {
                Ok(a) => parse_spec(addr@) == Ok::<AddressModel, ErrorModel>(a@),
                Err(e) => parse_spec(addr@) == Err::<AddressModel, ErrorModel>(e@),
            },
    {
        let (t, guid) = parse_exec(&chars_of(addr))?;
        let transport = t.into_owned();
        Ok(OwnedDBusAddr { transport, guid })
    }

    /// The canonical text of the address: its transport's name, `:`, the transport's
    /// options in their fixed order, and the GUID last.
    pub fn to_string(&self) -> (r: String)
        ensures
            r@ == format_spec(self@),
    {
        let mut out = String::new();
        self.transport.fmt_name(&mut out);
        push_char(&mut out, ':');
        let mut kv = KeyValFmt::new();
        self.transport.fmt_key_val(&mut kv);
        match &self.guid {
            Some(g) => kv.add("guid", Some(g.as_bytes())),
            None => {},
        }
        assert(kv.fields() =~= transport_options(self@.transport) + guid_options(self@.guid));
        let list = kv.into_string();
        push_str(&mut out, list.as_str());
        assert(out@ =~= format_spec(self@));
        out
    }
}

} // verus!
