//! Addresses: validation of the text, and the model of what it says.
use vstd::prelude::*;

use crate::fmt::join;
use crate::guid::Guid;
use crate::keyval::{find_char, index_of, key_vals, key_vals_exec, lemma_index_of_bounds, slice_chars, KeyVal, RawOption};
use crate::options::{is_guid_bytes, check_duplicates, decode_all, decode_options, first_duplicate, keys_of, opt_views, value_of, DecodedOption, Opt};
use crate::percent::encode_spec;
use crate::text::chars_of;
use crate::percent::{decode_percents, decode_spec};
use crate::transport::{text_of, to_text};
use crate::keyval::chars_are;
use crate::transport::{transport_name, transport_options, transport_spec, Transport, TransportModel};
use crate::{Error, ErrorModel};
use crate::keyval::key_val_views;

verus! {

/// The transport name and the option list of an address; `None` without a `:`.
pub open spec fn split_address(s: Seq<char>) -> Option<(Seq<char>, Seq<char>)> {
    let c = index_of(s, ':');
    if 0 <= c < s.len() {
        Some((s.subrange(0, c), s.subrange(c + 1, s.len() as int)))
    } else {
        None
    }
}

/// The transport name and validated, decoded options of an address.
///
/// Fails without a `:`, then on the first repeated key, then on the first value
/// that does not decode or, for `guid`, is no GUID.
pub open spec fn address_options(s: Seq<char>) -> Result<(Seq<char>, Seq<DecodedOption>), ErrorModel> {
    match split_address(s) {
        None => Err(ErrorModel::MissingTransport),
        Some((name, list)) => {
            let kvs = key_vals(list);
            match first_duplicate(keys_of(kvs)) {
                Some(k) => Err(ErrorModel::DuplicateKey(k)),
                None => match decode_options(kvs) {
                    Err(e) => Err(e),
                    Ok(opts) => Ok((name, opts)),
                },
            }
        }
    }
}

/// What a valid address says: its transport and its GUID, if it has one.
pub struct AddressModel {
    pub transport: TransportModel,
    pub guid: Option<Seq<u8>>,
}

/// The meaning of an address, or why it is invalid.
pub open spec fn parse_spec(s: Seq<char>) -> Result<AddressModel, ErrorModel> {
    match address_options(s) {
        Err(e) => Err(e),
        Ok((name, opts)) => match transport_spec(name, opts) {
            Err(e) => Err(e),
            Ok(t) => Ok(AddressModel { transport: t, guid: value_of(opts, "guid"@) }),
        },
    }
}

/// The GUID option, written last.
pub open spec fn guid_options(g: Option<Seq<u8>>) -> Seq<RawOption> {
    match g {
        Some(b) => seq![("guid"@, Some(encode_spec(b)))],
        None => Seq::empty(),
    }
}

/// The canonical text of an address.
pub open spec fn format_spec(m: AddressModel) -> Seq<char> {
    transport_name(m.transport) + seq![':'] + join(
        transport_options(m.transport) + guid_options(m.guid),
    )
}

/// Splits and validates an address into its transport name and decoded options.
pub fn address_options_exec(s: &Vec<char>) -> (r: Result<(Vec<char>, Vec<Opt>), Error>)
    ensures
        match r {
            Ok((name, opts)) => address_options(s@) == Ok::<
                (Seq<char>, Seq<DecodedOption>),
                ErrorModel,
            >((name@, opt_views(opts@))),
            Err(e) => address_options(s@) == Err::<(Seq<char>, Seq<DecodedOption>), ErrorModel>(
                e@,
            ),
        },
{
    let n = s.len();
    let c = find_char(s, 0, ':');
    proof {
        lemma_index_of_bounds(s@, ':');
        assert(s@.subrange(0, n as int) =~= s@);
    }
    if c == n {
        return Err(Error::MissingTransport);
    }
    let name = slice_chars(s, 0, c);
    let kvs = key_vals_exec(s, c + 1);
    check_duplicates(&kvs)?;
    let opts = decode_all(&kvs)?;
    Ok((name, opts))
}

/// Parses an address into its transport and GUID.
pub fn parse_exec(s: &Vec<char>) -> (r: Result<(Transport, Option<Guid>), Error>)
    ensures
        match r {
            Ok((t, g)) => parse_spec(s@) == Ok::<AddressModel, ErrorModel>(
                AddressModel {
                    transport: t@,
                    guid: match g {
                        Some(x) => Some(x@),
                        None => None,
                    },
                },
            ),
            Err(e) => parse_spec(s@) == Err::<AddressModel, ErrorModel>(e@),
        },
{
    let (name, opts) = address_options_exec(s)?;
    proof {
        let kvs = key_vals((split_address(s@)->0).1);
        lemma_decode_options_guids(kvs);
    }
    let t = Transport::for_options(&name, &opts)?;
    let g = guid_value(&opts);
    Ok((t, g))
}

/// Every `guid` option with a value holds a GUID.
pub open spec fn guids_valid(opts: Seq<DecodedOption>) -> bool {
    forall|i: int|
        0 <= i < opts.len() && (#[trigger] opts[i]).0 == "guid"@ && opts[i].1 is Some
            ==> is_guid_bytes(opts[i].1->0)
}

pub proof fn lemma_decode_options_guids(kvs: Seq<RawOption>)
    requires
        decode_options(kvs) is Ok,
    ensures
        guids_valid(decode_options(kvs)->Ok_0),
    decreases kvs.len(),
{
    if kvs.len() > 0 {
        lemma_decode_options_guids(kvs.drop_last());
        let d = decode_options(kvs.drop_last())->Ok_0;
        let all = decode_options(kvs)->Ok_0;
        assert forall|i: int|
            0 <= i < all.len() && (#[trigger] all[i]).0 == "guid"@ && all[i].1 is Some implies is_guid_bytes(
            all[i].1->0,
        ) by {
            if i < d.len() {
                assert(all[i] == d[i]);
            }
        }
    }
}

pub proof fn lemma_value_of_guid(opts: Seq<DecodedOption>)
    requires
        guids_valid(opts),
    ensures
        value_of(opts, "guid"@) is Some ==> is_guid_bytes(value_of(opts, "guid"@)->0),
    decreases opts.len(),
{
    if opts.len() > 0 && opts[0].0 != "guid"@ {
        assert forall|i: int|
            0 <= i < opts.drop_first().len() && (#[trigger] opts.drop_first()[i]).0 == "guid"@
                && opts.drop_first()[i].1 is Some implies is_guid_bytes(
            opts.drop_first()[i].1->0,
        ) by {
            assert(opts.drop_first()[i] == opts[i + 1]);
        }
        lemma_value_of_guid(opts.drop_first());
    } else if opts.len() > 0 {
        assert(opts[0].0 == "guid"@);
    }
}

/// The GUID among validated options.
fn guid_value(opts: &Vec<Opt>) -> (r: Option<Guid>)
    requires
        guids_valid(opt_views(opts@)),
    ensures
        match r {
            Some(x) => value_of(opt_views(opts@), "guid"@) == Some(x@),
            None => value_of(opt_views(opts@), "guid"@) is None,
        },
{
    match crate::transport::value_bytes(opts, "guid") {
        None => None,
        Some(b) => {
            proof {
                lemma_value_of_guid(opt_views(opts@));
            }
            match Guid::from_bytes(b) {
                Ok(g) => Some(g),
                Err(_) => None,
            }
        },
    }
}

/// The option list of an address: what follows its first `:`, or nothing.
pub open spec fn option_list(s: Seq<char>) -> Seq<char> {
    match split_address(s) {
        Some((_, list)) => list,
        None => Seq::empty(),
    }
}

/// The value the last option with key `k` has, if any option has that key.
pub open spec fn last_raw_value(kvs: Seq<RawOption>, k: Seq<char>) -> Option<Option<Seq<char>>>
    decreases kvs.len(),
{
    if kvs.len() == 0 {
        None
    } else if kvs.last().0 == k {
        Some(kvs.last().1)
    } else {
        last_raw_value(kvs.drop_last(), k)
    }
}

/// An encoded value decoded and read as text.
pub open spec fn decoded_text(v: Seq<char>) -> Result<Seq<char>, ErrorModel> {
    match decode_spec(v) {
        Err(e) => Err(ErrorModel::Encoding(e)),
        Ok(b) => text_of(b),
    }
}

/// A parsed bus address, holding its text.
#[derive(Debug, PartialEq, Eq)]
pub struct DBusAddr {
    addr: String,
}

impl View for DBusAddr {
    type V = Seq<char>;

    closed spec fn view(&self) -> Seq<char> {
        self.addr@
    }
}

impl Clone for DBusAddr {
    fn clone(&self) -> (r: DBusAddr)
        ensures
            r@ == self@,
    {
        proof {
            use_type_invariant(self);
        }
        DBusAddr { addr: self.addr.clone() }
    }
}

impl DBusAddr {
    /// The text of every address is valid.
    #[verifier::type_invariant]
    spec fn valid(&self) -> bool {
        parse_spec(self.addr@) is Ok
    }

    /// Validates an address.
    pub fn new(addr: &str) -> (r: Result<DBusAddr, Error>)
        ensures
            match r {
                Ok(a) => a@ == addr@ && parse_spec(addr@) is Ok,
                Err(e) => parse_spec(addr@) == Err::<AddressModel, ErrorModel>(e@),
            },
    {
        match DBusAddr::validate(addr) {
            Err(e) => Err(e),
            Ok(_) => {
                let text = addr.to_owned();
                assert(text@ == addr@);
                Ok(DBusAddr { addr: text })
            },
        }
    }

    fn validate(addr: &str) -> (r: Result<(), Error>)
        ensures
            match r {
                Ok(_) => parse_spec(addr@) is Ok,
                Err(e) => parse_spec(addr@) == Err::<AddressModel, ErrorModel>(e@),
            },
    {
        parse_exec(&chars_of(addr))?;
        Ok(())
    }

    /// The connection GUID if any.
    pub fn guid(&self) -> (r: Result<Option<Guid>, Error>)
        ensures
            r is Ok,
            match r {
                Ok(Some(g)) => parse_spec(self@)->Ok_0.guid == Some(g@),
                Ok(None) => parse_spec(self@)->Ok_0.guid is None,
                Err(_) => false,
            },
    {
        proof {
            use_type_invariant(self);
        }
        let (_, g) = parse_exec(&chars_of(self.addr.as_str()))?;
        Ok(g)
    }

    /// Transport connection details.
    pub fn transport(&self) -> (r: Result<Transport, Error>)
        ensures
            r is Ok,
            match r {
                Ok(t) => parse_spec(self@)->Ok_0.transport == t@,
                Err(_) => false,
            },
    {
        proof {
            use_type_invariant(self);
        }
        let (t, _) = parse_exec(&chars_of(self.addr.as_str()))?;
        Ok(t)
    }

    /// This address as a string slice.
    pub fn as_str(&self) -> (r: &str)
        ensures
            r@ == self@,
    {
        self.addr.as_str()
    }

    /// The raw options of the address.
    pub fn key_val_iter(&self) -> (r: Vec<KeyVal>)
        ensures
            key_val_views(r@) == key_vals(option_list(self@)),
    {
        let s = chars_of(self.addr.as_str());
        let n = s.len();
        let c = find_char(&s, 0, ':');
        proof {
            lemma_index_of_bounds(s@, ':');
            assert(s@.subrange(0, n as int) =~= s@);
        }
        if c == n {
            let empty: Vec<KeyVal> = Vec::new();
            assert(key_vals(Seq::<char>::empty()) =~= Seq::<RawOption>::empty());
            assert(key_val_views(empty@) =~= Seq::<RawOption>::empty());
            return empty;
        }
        key_vals_exec(&s, c + 1)
    }

    /// The value of the last option with key `key`, decoded as text.
    pub fn get_string(&self, key: &str) -> (r: Option<Result<String, Error>>)
        ensures
            match last_raw_value(key_vals(option_list(self@)), key@) {
                Some(Some(v)) => r is Some && crate::result_view(r->0) == decoded_text(v),
                _ => r is None,
            },
    {
        let kvs = self.key_val_iter();
        let ghost all = key_val_views(kvs@);
        let n = kvs.len();
        let mut found: Option<usize> = None;
        assert(all.subrange(0, 0) =~= Seq::<RawOption>::empty());
        for i in 0..n
            invariant
                n == kvs.len(),
                all == key_val_views(kvs@),
                match found {
                    Some(j) => j < i && last_raw_value(all.subrange(0, i as int), key@) == Some(
                        all[j as int].1,
                    ),
                    None => last_raw_value(all.subrange(0, i as int), key@) is None,
                },
        {
            assert(all.subrange(0, i + 1).drop_last() =~= all.subrange(0, i as int));
            if chars_are(&kvs[i].key, key) {
                found = Some(i);
            }
        }
        assert(all.subrange(0, n as int) =~= all);
        match found {
            None => None,
            Some(j) => match &kvs[j].value {
                None => None,
                Some(v) => match decode_percents(v) {
                    Err(e) => Some(Err(Error::Encoding(e))),
                    Ok(b) => Some(to_text(b)),
                },
            },
        }
    }
}

} // verus!
