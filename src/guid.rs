//! The GUID that identifies a bus session.
use vstd::prelude::*;
use vstd::utf8::*;

use crate::options::{is_guid, is_guid_bytes};
use crate::text::push_char;
use crate::transport::bytes_chars;
use crate::{Error, ErrorModel};

verus! {

/// A bus session GUID: 32 hexadecimal digits, kept as given.
#[derive(Clone, Debug, PartialEq, Eq)]
pub struct Guid {
    bytes: Vec<u8>,
}

impl View for Guid {
    type V = Seq<u8>;

    closed spec fn view(&self) -> Seq<u8> {
        self.bytes@
    }
}

impl Guid {
    /// The digits must form a GUID.
    pub closed spec fn wf(&self) -> bool {
        is_guid_bytes(self.bytes@)
    }

    /// A GUID from its digits, as bytes.
    pub fn from_bytes(b: Vec<u8>) -> (r: Result<Guid, Error>)
        ensures
            match r {
                Ok(g) => is_guid_bytes(b@) && g@ == b@ && g.wf(),
                Err(e) => !is_guid_bytes(b@) && e@ == ErrorModel::InvalidValue("guid"@),
            },
    {
        if is_guid(&b) {
            Ok(Guid { bytes: b })
        } else {
            Err(Error::InvalidValue("guid".to_owned()))
        }
    }

    /// A GUID from its text.
    pub fn parse(s: &str) -> (r: Result<Guid, Error>)
        ensures
            match r {
                Ok(g) => is_guid_bytes(encode_utf8(s@)) && g@ == encode_utf8(s@),
                Err(e) => !is_guid_bytes(encode_utf8(s@)) && e@ == ErrorModel::InvalidValue(
                    "guid"@,
                ),
            },
    {
        let b = s.as_bytes();
        let mut v: Vec<u8> = Vec::new();
        let n = b.len();
        for i in 0..n
            invariant
                n == b@.len(),
                v@ == b@.subrange(0, i as int),
        {
            v.push(b[i]);
            assert(v@ =~= b@.subrange(0, i + 1));
        }
        assert(b@.subrange(0, n as int) =~= b@);
        Guid::from_bytes(v)
    }

    /// The digits, as bytes.
    pub fn as_bytes(&self) -> (r: &[u8])
        ensures
            r@ == self@,
    {
        self.bytes.as_slice()
    }

    /// The GUID's text.
    pub fn to_string(&self) -> (r: String)
        ensures
            r@ == bytes_chars(self@),
    {
        let mut s = String::new();
        let n = self.bytes.len();
        for i in 0..n
            invariant
                n == self.bytes@.len(),
                s@ == bytes_chars(self.bytes@).subrange(0, i as int),
        {
            push_char(&mut s, self.bytes[i] as char);
            assert(s@ =~= bytes_chars(self.bytes@).subrange(0, i + 1));
        }
        assert(bytes_chars(self.bytes@).subrange(0, n as int) =~= bytes_chars(self.bytes@));
        s
    }
}

} // verus!
